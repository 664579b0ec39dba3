//! The text and token encoder of a SoVITS model: which tensors its layers are made of, and how
//! its attention counts places.

use crate::float_bits::F32;
use crate::models::grid::{grid, grid_prefix, grid_value, lemma_push, lemma_row_end};
use crate::models::weights::{
    conv_of, indexed, load_conv, numbered, same_list, same_outcome, under, Conv, ConvKind, Weights,
    WeightsView,
};
use crate::strings::decimal;
use vstd::prelude::*;

verus! {

/// An attention by the places of its tensors.
#[derive(Debug, Clone, Copy, PartialEq, Eq, Structural)]
pub struct SelfAttention {
    pub conv_q: Conv,
    pub conv_k: Conv,
    pub conv_v: Conv,
    pub conv_o: Conv,
    pub n_heads: usize,
    pub head_dim: usize,
    pub emb_rel_k: Option<usize>,
    pub emb_rel_v: Option<usize>,
}

/// The four convolutions of an attention under a prefix.
pub open spec fn projections_of(w: WeightsView, prefix: Seq<char>) -> Result<
    (Conv, Conv, Conv, Conv),
    Seq<char>,
> {
    match conv_of(w, prefix + ".conv_q"@, ConvKind::Plain) {
        Err(e) => Err(e),
        Ok(q) => match conv_of(w, prefix + ".conv_k"@, ConvKind::Plain) {
            Err(e) => Err(e),
            Ok(k) => match conv_of(w, prefix + ".conv_v"@, ConvKind::Plain) {
                Err(e) => Err(e),
                Ok(v) => match conv_of(w, prefix + ".conv_o"@, ConvKind::Plain) {
                    Err(e) => Err(e),
                    Ok(o) => Ok((q, k, v, o)),
                },
            },
        },
    }
}

/// The four convolutions of an attention under a prefix.
fn load_projections(w: &Weights, prefix: &str) -> (r: Result<(Conv, Conv, Conv, Conv), String>)
    ensures
        same_outcome(r, projections_of(w@, prefix@)),
{
    let q = match load_conv(w, under(prefix, ".conv_q").as_str(), ConvKind::Plain) {
        Ok(conv) => conv,
        Err(e) => return Err(e),
    };
    let k = match load_conv(w, under(prefix, ".conv_k").as_str(), ConvKind::Plain) {
        Ok(conv) => conv,
        Err(e) => return Err(e),
    };
    let v = match load_conv(w, under(prefix, ".conv_v").as_str(), ConvKind::Plain) {
        Ok(conv) => conv,
        Err(e) => return Err(e),
    };
    match load_conv(w, under(prefix, ".conv_o").as_str(), ConvKind::Plain) {
        Ok(o) => Ok((q, k, v, o)),
        Err(e) => Err(e),
    }
}

/// The channels of a head: the third dimension of the relative embedding of keys, or half of all
/// channels where there is none. A head has at least one.
pub open spec fn head_dim_of(w: WeightsView, channels: usize, rel_k: Option<usize>) -> Option<usize> {
    match rel_k {
        Some(place) => match w.dimension(place, 2) {
            Some(d) => if d == 0 {
                None
            } else {
                Some(d)
            },
            None => None,
        },
        None => if channels >= 2 {
            Some((channels / 2) as usize)
        } else {
            None
        },
    }
}

/// The attention under a prefix. A first weight or a relative embedding without the dimensions
/// that are counted is refused like a missing one.
pub open spec fn attention_of(w: WeightsView, prefix: Seq<char>) -> Result<
    SelfAttention,
    Seq<char>,
> {
    let rel_k = w.maybe(prefix + ".emb_rel_k"@);
    match projections_of(w, prefix) {
        Err(e) => Err(e),
        Ok((conv_q, conv_k, conv_v, conv_o)) => match w.dimension(conv_q.weight, 0) {
            None => Err(prefix + ".conv_q"@),
            Some(channels) => match head_dim_of(w, channels, rel_k) {
                None => Err(prefix + ".emb_rel_k"@),
                Some(head_dim) => Ok(
                    SelfAttention {
                        conv_q,
                        conv_k,
                        conv_v,
                        conv_o,
                        n_heads: (channels / head_dim) as usize,
                        head_dim,
                        emb_rel_k: rel_k,
                        emb_rel_v: w.maybe(prefix + ".emb_rel_v"@),
                    },
                ),
            },
        },
    }
}

impl SelfAttention {
    /// The attention under a prefix, or the first name that is missing.
    pub fn load(w: &Weights, prefix: &str) -> (r: Result<Self, String>)
        ensures
            same_outcome(r, attention_of(w@, prefix@)),
    {
        let (conv_q, conv_k, conv_v, conv_o) = match load_projections(w, prefix) {
            Ok(p) => p,
            Err(e) => return Err(e),
        };
        let channels: usize = match w.dim(conv_q.weight, 0) {
            Some(d) => d,
            None => return Err(under(prefix, ".conv_q")),
        };
        let emb_rel_k = w.get_optional(under(prefix, ".emb_rel_k").as_str());
        let head_dim: usize = match emb_rel_k {
            Some(place) => match w.dim(place, 2) {
                Some(d) => if d == 0 {
                    return Err(under(prefix, ".emb_rel_k"));
                } else {
                    d
                },
                None => return Err(under(prefix, ".emb_rel_k")),
            },
            None => {
                if channels >= 2 {
                    channels / 2
                } else {
                    return Err(under(prefix, ".emb_rel_k"));
                }
            },
        };
        let emb_rel_v = w.get_optional(under(prefix, ".emb_rel_v").as_str());
        Ok(
            SelfAttention {
                conv_q,
                conv_k,
                conv_v,
                conv_o,
                n_heads: channels / head_dim,
                head_dim,
                emb_rel_k,
                emb_rel_v,
            },
        )
    }
}

/// The convolutions of a feed-forward network.
#[derive(Debug, Clone, Copy, PartialEq, Eq, Structural)]
pub struct FeedForward {
    pub conv_1: Conv,
    pub conv_2: Conv,
}

/// The feed-forward network under a prefix.
pub open spec fn feed_forward_of(w: WeightsView, prefix: Seq<char>) -> Result<
    FeedForward,
    Seq<char>,
> {
    match conv_of(w, prefix + ".conv_1"@, ConvKind::Plain) {
        Err(e) => Err(e),
        Ok(conv_1) => match conv_of(w, prefix + ".conv_2"@, ConvKind::Plain) {
            Err(e) => Err(e),
            Ok(conv_2) => Ok(FeedForward { conv_1, conv_2 }),
        },
    }
}

impl FeedForward {
    /// The feed-forward network under a prefix, or the first name that is missing.
    pub fn load(w: &Weights, prefix: &str) -> (r: Result<Self, String>)
        ensures
            same_outcome(r, feed_forward_of(w@, prefix@)),
    {
        let conv_1 = match load_conv(w, under(prefix, ".conv_1").as_str(), ConvKind::Plain) {
            Ok(conv) => conv,
            Err(e) => return Err(e),
        };
        match load_conv(w, under(prefix, ".conv_2").as_str(), ConvKind::Plain) {
            Ok(conv_2) => Ok(FeedForward { conv_1, conv_2 }),
            Err(e) => Err(e),
        }
    }
}

/// A normalisation by the places of its scale and its shift.
#[derive(Debug, Clone, Copy, PartialEq, Eq, Structural)]
pub struct Norm {
    pub gamma: usize,
    pub beta: usize,
}

/// The normalisation under a prefix.
pub open spec fn norm_of(w: WeightsView, prefix: Seq<char>) -> Result<Norm, Seq<char>> {
    match w.need(prefix + ".gamma"@) {
        Err(e) => Err(e),
        Ok(gamma) => match w.need(prefix + ".beta"@) {
            Err(e) => Err(e),
            Ok(beta) => Ok(Norm { gamma, beta }),
        },
    }
}

/// The normalisation under a prefix.
fn load_norm(w: &Weights, prefix: &str) -> (r: Result<Norm, String>)
    ensures
        same_outcome(r, norm_of(w@, prefix@)),
{
    let gamma = match w.get(under(prefix, ".gamma").as_str()) {
        Ok(place) => place,
        Err(e) => return Err(e),
    };
    match w.get(under(prefix, ".beta").as_str()) {
        Ok(beta) => Ok(Norm { gamma, beta }),
        Err(e) => Err(e),
    }
}

/// A layer of an encoder.
#[derive(Debug, Clone, Copy, PartialEq, Eq, Structural)]
pub struct EncoderLayer {
    pub self_attn: SelfAttention,
    pub ffn: FeedForward,
    pub norm1: Norm,
    pub norm2: Norm,
}

/// A layer of the encoder under a prefix, by its number.
pub open spec fn encoder_layer_of(w: WeightsView, prefix: Seq<char>, layer: nat) -> Result<
    EncoderLayer,
    Seq<char>,
> {
    match attention_of(w, prefix + ".attn_layers."@ + decimal(layer)) {
        Err(e) => Err(e),
        Ok(self_attn) => match feed_forward_of(w, prefix + ".ffn_layers."@ + decimal(layer)) {
            Err(e) => Err(e),
            Ok(ffn) => match norm_of(w, prefix + ".norm_layers_1."@ + decimal(layer)) {
                Err(e) => Err(e),
                Ok(norm1) => match norm_of(w, prefix + ".norm_layers_2."@ + decimal(layer)) {
                    Err(e) => Err(e),
                    Ok(norm2) => Ok(EncoderLayer { self_attn, ffn, norm1, norm2 }),
                },
            },
        },
    }
}

impl EncoderLayer {
    /// A layer of the encoder under a prefix, or the first name that is missing.
    pub fn load(w: &Weights, prefix: &str, layer: usize) -> (r: Result<Self, String>)
        ensures
            same_outcome(r, encoder_layer_of(w@, prefix@, layer as nat)),
    {
        let self_attn = match SelfAttention::load(
            w,
            indexed(under(prefix, ".attn_layers.").as_str(), layer).as_str(),
        ) {
            Ok(a) => a,
            Err(e) => return Err(e),
        };
        let ffn = match FeedForward::load(
            w,
            indexed(under(prefix, ".ffn_layers.").as_str(), layer).as_str(),
        ) {
            Ok(f) => f,
            Err(e) => return Err(e),
        };
        let norm1 = match load_norm(
            w,
            indexed(under(prefix, ".norm_layers_1.").as_str(), layer).as_str(),
        ) {
            Ok(n) => n,
            Err(e) => return Err(e),
        };
        match load_norm(w, indexed(under(prefix, ".norm_layers_2.").as_str(), layer).as_str()) {
            Ok(norm2) => Ok(EncoderLayer { self_attn, ffn, norm1, norm2 }),
            Err(e) => Err(e),
        }
    }
}

/// The layers of the encoder under a prefix below a count: each that has an attention.
pub open spec fn encoder_of(w: WeightsView, prefix: Seq<char>, count: nat) -> Result<
    Seq<EncoderLayer>,
    Seq<char>,
>
    decreases count,
{
    if count == 0 {
        Ok(Seq::empty())
    } else {
        let i = (count - 1) as nat;
        match encoder_of(w, prefix, i) {
            Err(e) => Err(e),
            Ok(before) => if w.has(prefix + ".attn_layers."@ + decimal(i) + ".conv_q.weight"@) {
                match encoder_layer_of(w, prefix, i) {
                    Ok(layer) => Ok(before.push(layer)),
                    Err(e) => Err(e),
                }
            } else {
                Ok(before)
            },
        }
    }
}

proof fn lemma_encoder_fails(w: WeightsView, prefix: Seq<char>, i: nat, count: nat)
    requires
        i <= count,
        encoder_of(w, prefix, i) is Err,
    ensures
        encoder_of(w, prefix, count) == encoder_of(w, prefix, i),
    decreases count,
{
    if i < count {
        lemma_encoder_fails(w, prefix, i, (count - 1) as nat);
    }
}

/// The layers of the encoder under a prefix below a count.
pub fn load_encoder(w: &Weights, prefix: &str, count: usize) -> (r: Result<
    Vec<EncoderLayer>,
    String,
>)
    ensures
        same_list(r, encoder_of(w@, prefix@, count as nat)),
{
    let mut layers: Vec<EncoderLayer> = Vec::new();
    for i in 0..count
        invariant
            encoder_of(w@, prefix@, i as nat) == Ok::<Seq<EncoderLayer>, Seq<char>>(layers@),
    {
        if w.contains(
            numbered(under(prefix, ".attn_layers.").as_str(), i, ".conv_q.weight").as_str(),
        ) {
            match EncoderLayer::load(w, prefix, i) {
                Ok(layer) => layers.push(layer),
                Err(e) => {
                    proof {
                        lemma_encoder_fails(w@, prefix@, (i + 1) as nat, count as nat);
                    }
                    return Err(e);
                },
            }
        }
    }
    Ok(layers)
}

/// An attention of one sequence to another.
#[derive(Debug, Clone, Copy, PartialEq, Eq, Structural)]
pub struct CrossAttention {
    pub conv_q: Conv,
    pub conv_k: Conv,
    pub conv_v: Conv,
    pub conv_o: Conv,
    pub n_heads: usize,
    pub k_channels: usize,
}

/// How many heads the attention to the text has.
pub const CROSS_HEADS: usize = 4;

/// The attention of one sequence to another under a prefix. A first weight without dimensions is
/// refused like a missing one.
pub open spec fn cross_attention_of(w: WeightsView, prefix: Seq<char>) -> Result<
    CrossAttention,
    Seq<char>,
> {
    match projections_of(w, prefix) {
        Err(e) => Err(e),
        Ok((conv_q, conv_k, conv_v, conv_o)) => match w.dimension(conv_q.weight, 0) {
            None => Err(prefix + ".conv_q"@),
            Some(channels) => Ok(
                CrossAttention {
                    conv_q,
                    conv_k,
                    conv_v,
                    conv_o,
                    n_heads: CROSS_HEADS,
                    k_channels: (channels / CROSS_HEADS) as usize,
                },
            ),
        },
    }
}

/// The attention of one sequence to another under a prefix.
fn load_cross_attention(w: &Weights, prefix: &str) -> (r: Result<CrossAttention, String>)
    ensures
        same_outcome(r, cross_attention_of(w@, prefix@)),
{
    let (conv_q, conv_k, conv_v, conv_o) = match load_projections(w, prefix) {
        Ok(p) => p,
        Err(e) => return Err(e),
    };
    match w.dim(conv_q.weight, 0) {
        Some(channels) => Ok(
            CrossAttention {
                conv_q,
                conv_k,
                conv_v,
                conv_o,
                n_heads: CROSS_HEADS,
                k_channels: channels / CROSS_HEADS,
            },
        ),
        None => Err(under(prefix, ".conv_q")),
    }
}

/// The fusion of tokens, text and timbre.
#[derive(Debug, Clone, Copy, PartialEq, Eq, Structural)]
pub struct MRTE {
    pub c_pre: Option<Conv>,
    pub c_post: Option<Conv>,
    pub text_pre: Option<Conv>,
    pub cross_attention: Option<CrossAttention>,
}

/// The convolution under a prefix, where there is a weight for it.
pub open spec fn optional_conv(w: WeightsView, prefix: Seq<char>) -> Result<
    Option<Conv>,
    Seq<char>,
> {
    if w.has(prefix + ".weight"@) {
        match conv_of(w, prefix, ConvKind::Plain) {
            Ok(conv) => Ok(Some(conv)),
            Err(e) => Err(e),
        }
    } else {
        Ok(None)
    }
}

/// The convolution under a prefix, where there is a weight for it.
fn load_optional(w: &Weights, prefix: &str) -> (r: Result<Option<Conv>, String>)
    ensures
        same_outcome(r, optional_conv(w@, prefix@)),
{
    if w.contains(under(prefix, ".weight").as_str()) {
        match load_conv(w, prefix, ConvKind::Plain) {
            Ok(conv) => Ok(Some(conv)),
            Err(e) => Err(e),
        }
    } else {
        Ok(None)
    }
}

/// The fusion under a prefix.
pub open spec fn mrte_of(w: WeightsView, prefix: Seq<char>) -> Result<MRTE, Seq<char>> {
    match optional_conv(w, prefix + ".c_pre"@) {
        Err(e) => Err(e),
        Ok(c_pre) => match optional_conv(w, prefix + ".c_post"@) {
            Err(e) => Err(e),
            Ok(c_post) => match optional_conv(w, prefix + ".text_pre"@) {
                Err(e) => Err(e),
                Ok(text_pre) => if w.has(prefix + ".cross_attention.conv_q.weight"@) {
                    match cross_attention_of(w, prefix + ".cross_attention"@) {
                        Err(e) => Err(e),
                        Ok(a) => Ok(MRTE { c_pre, c_post, text_pre, cross_attention: Some(a) }),
                    }
                } else {
                    Ok(MRTE { c_pre, c_post, text_pre, cross_attention: None })
                },
            },
        },
    }
}

impl MRTE {
    /// The fusion under a prefix, or the first name that is missing.
    pub fn load(w: &Weights, prefix: &str) -> (r: Result<Self, String>)
        ensures
            same_outcome(r, mrte_of(w@, prefix@)),
    {
        let c_pre = match load_optional(w, under(prefix, ".c_pre").as_str()) {
            Ok(conv) => conv,
            Err(e) => return Err(e),
        };
        let c_post = match load_optional(w, under(prefix, ".c_post").as_str()) {
            Ok(conv) => conv,
            Err(e) => return Err(e),
        };
        let text_pre = match load_optional(w, under(prefix, ".text_pre").as_str()) {
            Ok(conv) => conv,
            Err(e) => return Err(e),
        };
        if !w.contains(under(prefix, ".cross_attention.conv_q.weight").as_str()) {
            return Ok(MRTE { c_pre, c_post, text_pre, cross_attention: None });
        }
        match load_cross_attention(w, under(prefix, ".cross_attention").as_str()) {
            Ok(a) => Ok(MRTE { c_pre, c_post, text_pre, cross_attention: Some(a) }),
            Err(e) => Err(e),
        }
    }
}

/// The text and token encoder.
pub struct EncP {
    pub ssl_proj: Conv,
    pub encoder_ssl: Vec<EncoderLayer>,
    pub encoder_text: Vec<EncoderLayer>,
    pub text_embedding: usize,
    pub mrte: Option<MRTE>,
    pub encoder2: Vec<EncoderLayer>,
    pub proj: Conv,
    pub out_channels: usize,
}

/// The text and token encoder.
pub struct EncPView {
    pub ssl_proj: Conv,
    pub encoder_ssl: Seq<EncoderLayer>,
    pub encoder_text: Seq<EncoderLayer>,
    pub text_embedding: usize,
    pub mrte: Option<MRTE>,
    pub encoder2: Seq<EncoderLayer>,
    pub proj: Conv,
    pub out_channels: usize,
}

/// The fusion of the encoder, where there is an attention for it.
pub open spec fn fusion_of(w: WeightsView) -> Result<Option<MRTE>, Seq<char>> {
    if w.has("enc_p.mrte.cross_attention.conv_q.weight"@) {
        match mrte_of(w, "enc_p.mrte"@) {
            Ok(m) => Ok(Some(m)),
            Err(e) => Err(e),
        }
    } else {
        Ok(None)
    }
}

/// The layers of the encoder of a model file: half of `n_layers` for the tokens, all of them for
/// the text, half for what both become.
pub open spec fn encoders_of(w: WeightsView, n_layers: nat) -> Result<
    (Seq<EncoderLayer>, Seq<EncoderLayer>, Option<MRTE>, Seq<EncoderLayer>),
    Seq<char>,
> {
    match encoder_of(w, "enc_p.encoder_ssl"@, n_layers / 2) {
        Err(e) => Err(e),
        Ok(ssl) => match encoder_of(w, "enc_p.encoder_text"@, n_layers) {
            Err(e) => Err(e),
            Ok(text) => match fusion_of(w) {
                Err(e) => Err(e),
                Ok(mrte) => match encoder_of(w, "enc_p.encoder2"@, n_layers / 2) {
                    Err(e) => Err(e),
                    Ok(second) => Ok((ssl, text, mrte, second)),
                },
            },
        },
    }
}

/// The text and token encoder of a model file.
pub open spec fn encp_of(w: WeightsView, n_layers: nat, out_channels: usize) -> Result<
    EncPView,
    Seq<char>,
> {
    match conv_of(w, "enc_p.ssl_proj"@, ConvKind::Unpadded) {
        Err(e) => Err(e),
        Ok(ssl_proj) => match w.need("enc_p.text_embedding.weight"@) {
            Err(e) => Err(e),
            Ok(text_embedding) => match encoders_of(w, n_layers) {
                Err(e) => Err(e),
                Ok((encoder_ssl, encoder_text, mrte, encoder2)) => match conv_of(
                    w,
                    "enc_p.proj"@,
                    ConvKind::Unpadded,
                ) {
                    Err(e) => Err(e),
                    Ok(proj) => Ok(
                        EncPView {
                            ssl_proj,
                            encoder_ssl,
                            encoder_text,
                            text_embedding,
                            mrte,
                            encoder2,
                            proj,
                            out_channels,
                        },
                    ),
                },
            },
        },
    }
}

impl EncP {
    /// The parts of the encoder.
    pub open spec fn view(&self) -> EncPView {
        EncPView {
            ssl_proj: self.ssl_proj,
            encoder_ssl: self.encoder_ssl@,
            encoder_text: self.encoder_text@,
            text_embedding: self.text_embedding,
            mrte: self.mrte,
            encoder2: self.encoder2@,
            proj: self.proj,
            out_channels: self.out_channels,
        }
    }

    /// The text and token encoder of a model file, or the first name that is missing.
    pub fn load(w: &Weights, n_layers: usize, out_channels: usize) -> (r: Result<Self, String>)
        ensures
            match r {
                Ok(enc) => encp_of(w@, n_layers as nat, out_channels) == Ok::<EncPView, Seq<char>>(
                    enc@,
                ),
                Err(e) => encp_of(w@, n_layers as nat, out_channels) == Err::<EncPView, Seq<char>>(
                    e@,
                ),
            },
    {
        let ssl_proj = match load_conv(w, "enc_p.ssl_proj", ConvKind::Unpadded) {
            Ok(conv) => conv,
            Err(e) => return Err(e),
        };
        let text_embedding = match w.get("enc_p.text_embedding.weight") {
            Ok(place) => place,
            Err(e) => return Err(e),
        };
        let encoder_ssl = match load_encoder(w, "enc_p.encoder_ssl", n_layers / 2) {
            Ok(list) => list,
            Err(e) => return Err(e),
        };
        let encoder_text = match load_encoder(w, "enc_p.encoder_text", n_layers) {
            Ok(list) => list,
            Err(e) => return Err(e),
        };
        let mrte = if w.contains("enc_p.mrte.cross_attention.conv_q.weight") {
            match MRTE::load(w, "enc_p.mrte") {
                Ok(m) => Some(m),
                Err(e) => return Err(e),
            }
        } else {
            None
        };
        let encoder2 = match load_encoder(w, "enc_p.encoder2", n_layers / 2) {
            Ok(list) => list,
            Err(e) => return Err(e),
        };
        match load_conv(w, "enc_p.proj", ConvKind::Unpadded) {
            Ok(proj) => Ok(
                EncP {
                    ssl_proj,
                    encoder_ssl,
                    encoder_text,
                    text_embedding,
                    mrte,
                    encoder2,
                    proj,
                    out_channels,
                },
            ),
            Err(e) => Err(e),
        }
    }
}

/// How a relative embedding is cut to a length: the zeros on both sides, and the slice that is
/// taken then.
#[derive(Debug, Clone, Copy, PartialEq, Eq, Structural)]
pub struct RelativeSlice {
    pub pad: usize,
    pub start: usize,
    pub len: usize,
}

/// How a relative embedding of some rows is cut to a sequence: one row for each distance between
/// two places.
pub fn relative_slice(rows: usize, length: usize) -> (r: RelativeSlice)
    requires
        rows >= 1,
        1 <= length <= usize::MAX / 4,
        rows <= usize::MAX / 4,
    ensures
        ({
            let window = (rows - 1) / 2;
            &&& r.len == 2 * length - 1
            &&& length > window + 1 ==> r.pad == length - window - 1 && r.start == 0
            &&& length <= window + 1 ==> r.pad == 0 && r.start == window + 1 - length
            &&& rows % 2 == 1 ==> r.start + r.len <= rows + 2 * r.pad
            &&& rows % 2 == 1 ==> 2 * (r.start + length - 1) == rows + 2 * r.pad - 1
        }),
{
    let window: usize = (rows - 1) / 2;
    let pad: usize = if length > window + 1 {
        length - window - 1
    } else {
        0
    };
    let start: usize = if window + 1 > length {
        window + 1 - length
    } else {
        0
    };
    RelativeSlice { pad, start, len: 2 * length - 1 }
}

/// The distance of two places of a sequence as a place among all distances.
pub open spec fn distance_place(length: int, i: int, j: int) -> int {
    j - i + length - 1
}

/// Where a score by places is found among scores by distances that are padded by one, written
/// one after the other and read in rows that are one shorter.
pub proof fn shifted_rows_give_distances(length: int, i: int, j: int)
    requires
        0 <= i < length,
        0 <= j < length,
    ensures
        ({
            let flat = i * (2 * length - 1) + (length - 1 + j);
            flat / (2 * length) == i && flat % (2 * length) == distance_place(length, i, j)
        }),
{
    let row = 2 * length;
    let column = distance_place(length, i, j);
    assert(i * (2 * length - 1) + (length - 1 + j) == i * row + column) by (nonlinear_arith)
        requires
            row == 2 * length,
            column == j - i + length - 1,
    ;
    vstd::arithmetic::div_mod::lemma_fundamental_div_mod_converse(
        i * row + column,
        row,
        i,
        column,
    );
}

/// Scores by distances are taken to places, and places to distances: each undoes the other
/// wherever a distance is that of two places.
pub proof fn distances_and_places_agree(length: int, i: int, d: int)
    requires
        0 <= i < length,
        0 <= d < 2 * length - 1,
        0 <= i + d - (length - 1) < length,
    ensures
        distance_place(length, i, i + d - (length - 1)) == d,
{
}

/// The scores by places, of scores by distances: for each place of each sequence a row of
/// scores for all distances, and of these the one of each place.
pub open spec fn absolute_scores(x: Seq<F32>, rows: nat, length: nat) -> Seq<F32> {
    grid(
        rows,
        length,
        |q: int, j: int| x[q * (2 * length - 1) + distance_place(length as int, q % length as int, j)],
    )
}

/// The scores by places, of scores by distances. There is a row for each place of each sequence.
pub fn relative_to_absolute(x: &Vec<F32>, sequences: usize, length: usize) -> (r: Vec<F32>)
    requires
        1 <= length <= usize::MAX / 2,
        sequences * length * (2 * length - 1) == x@.len(),
    ensures
        r@ == absolute_scores(x@, sequences as nat * length as nat, length as nat),
{
    let ghost n = length as nat;
    let ghost rows = sequences as nat * n;
    let ghost f = |q: int, j: int|
        x@[q * (2 * length - 1) + distance_place(length as int, q % length as int, j)];
    let width: usize = 2 * length - 1;
    let mut r: Vec<F32> = Vec::new();
    let mut q: usize = 0;
    let mut base: usize = 0;
    let total: usize = x.len();
    proof {
        lemma_row_end(n, 0);
        lemma_row_end(width as nat, 0);
        assert(rows * width == total) by (nonlinear_arith)
            requires
                rows == sequences as nat * n,
                n == length,
                width == 2 * length - 1,
                sequences * length * (2 * length - 1) == total,
        ;
    }
    while base < total
        invariant
            n == length,
            length >= 1,
            width == 2 * length - 1,
            total == x@.len(),
            rows * width == total,
            base == q * width,
            q <= rows,
            f == (|q: int, j: int|
                x@[q * (2 * length - 1) + distance_place(length as int, q % length as int, j)]),
            r@ == grid_prefix(q as nat * n, n, f),
        decreases total - base,
    {
        proof {
            lemma_row_end(n, q as nat);
            lemma_row_end(width as nat, q as nat);
            assert(q < rows) by (nonlinear_arith)
                requires
                    q * width < rows * width,
            ;
            assert((q + 1) * width <= rows * width) by (nonlinear_arith)
                requires
                    q + 1 <= rows,
                    0 <= width,
            ;
        }
        let i: usize = q % length;
        for j in 0..length
            invariant
                n == length,
                length >= 1,
                i == q % length,
                i < length,
                width == 2 * length - 1,
                base == q * width,
                base + width <= total,
                total == x@.len(),
                f == (|q: int, j: int|
                    x@[q * (2 * length - 1) + distance_place(length as int, q % length as int, j)]),
                r@ == grid_prefix(q as nat * n + j as nat, n, f),
        {
            proof {
                lemma_push(r@, n, q as nat, j as nat, f);
            }
            r.push(x[base + (j + (length - 1 - i))]);
        }
        base = base + width;
        proof {
            assert(q + 1 <= rows);
            assert(rows <= total) by (nonlinear_arith)
                requires
                    rows * width == total,
                    width >= 1,
            ;
        }
        q = q + 1;
    }
    assert(q == rows) by (nonlinear_arith)
        requires
            q * width >= rows * width,
            q <= rows,
            width >= 1,
    ;
    r
}

/// The scores by distances, of scores by places: zero for the distances that lead out of the
/// sequence.
pub open spec fn relative_scores(x: Seq<F32>, rows: nat, length: nat) -> Seq<F32> {
    grid(
        rows,
        (2 * length - 1) as nat,
        |q: int, d: int|
            {
                let j = q % length as int + d - (length - 1);
                if 0 <= j < length {
                    x[q * length + j]
                } else {
                    F32 { bits: 0 }
                }
            },
    )
}

/// The scores by distances, of scores by places. There is a row for each place of each sequence.
pub fn absolute_to_relative(x: &Vec<F32>, sequences: usize, length: usize) -> (r: Vec<F32>)
    requires
        1 <= length <= usize::MAX / 2,
        sequences * length * length == x@.len(),
    ensures
        r@ == relative_scores(x@, sequences as nat * length as nat, length as nat),
{
    let ghost n = length as nat;
    let ghost rows = sequences as nat * n;
    let width: usize = 2 * length - 1;
    let ghost wide = width as nat;
    let ghost f = |q: int, d: int|
        {
            let j = q % length as int + d - (length - 1);
            if 0 <= j < length {
                x@[q * length + j]
            } else {
                F32 { bits: 0 }
            }
        };
    let mut r: Vec<F32> = Vec::new();
    let mut q: usize = 0;
    let mut base: usize = 0;
    let total: usize = x.len();
    proof {
        lemma_row_end(n, 0);
        lemma_row_end(wide, 0);
        assert(rows * n == total) by (nonlinear_arith)
            requires
                rows == sequences as nat * n,
                n == length,
                sequences * length * length == total,
        ;
    }
    while base < total
        invariant
            n == length,
            1 <= length <= usize::MAX / 2,
            width == 2 * length - 1,
            wide == width,
            total == x@.len(),
            rows * n == total,
            base == q * length,
            q <= rows,
            f == (|q: int, d: int|
                {
                    let j = q % length as int + d - (length - 1);
                    if 0 <= j < length {
                        x@[q * length + j]
                    } else {
                        F32 { bits: 0 }
                    }
                }),
            r@ == grid_prefix(q as nat * wide, wide, f),
        decreases total - base,
    {
        proof {
            lemma_row_end(n, q as nat);
            lemma_row_end(wide, q as nat);
            assert(q < rows) by (nonlinear_arith)
                requires
                    q * n < rows * n,
            ;
            assert((q + 1) * n <= rows * n) by (nonlinear_arith)
                requires
                    q + 1 <= rows,
                    0 <= n,
            ;
        }
        let i: usize = q % length;
        for d in 0..width
            invariant
                n == length,
                1 <= length <= usize::MAX / 2,
                i == q % length,
                i < length,
                width == 2 * length - 1,
                wide == width,
                base == q * length,
                base + length <= total,
                total == x@.len(),
                f == (|q: int, d: int|
                    {
                        let j = q % length as int + d - (length - 1);
                        if 0 <= j < length {
                            x@[q * length + j]
                        } else {
                            F32 { bits: 0 }
                        }
                    }),
                r@ == grid_prefix(q as nat * wide + d as nat, wide, f),
        {
            proof {
                lemma_push(r@, wide, q as nat, d as nat, f);
            }
            let skipped: usize = length - 1 - i;
            let value = if d >= skipped && d - skipped < length {
                x[base + (d - skipped)]
            } else {
                F32::from_bits(0)
            };
            assert(value == f(q as int, d as int));
            r.push(value);
        }
        base = base + length;
        proof {
            assert(rows <= total) by (nonlinear_arith)
                requires
                    rows * n == total,
                    n >= 1,
            ;
        }
        q = q + 1;
    }
    assert(q == rows) by (nonlinear_arith)
        requires
            q * n >= rows * n,
            q <= rows,
            n >= 1,
    ;
    r
}

/// Scores by places, taken to distances and back, are as they were.
pub proof fn places_survive_distances(x: Seq<F32>, rows: nat, length: nat, q: int, j: int)
    requires
        length >= 1,
        0 <= q < rows,
        0 <= j < length,
    ensures
        absolute_scores(relative_scores(x, rows, length), rows, length)[q * length + j] == x[q
            * length + j],
{
    let wide = (2 * length - 1) as nat;
    let d = distance_place(length as int, q % length as int, j);
    let y = relative_scores(x, rows, length);
    grid_value(
        rows,
        length,
        |q: int, j: int| y[q * (2 * length - 1) + distance_place(length as int, q % length as int, j)],
        q,
        j,
    );
    grid_value(
        rows,
        wide,
        |q: int, d: int|
            {
                let j = q % length as int + d - (length - 1);
                if 0 <= j < length {
                    x[q * length + j]
                } else {
                    F32 { bits: 0 }
                }
            },
        q,
        d,
    );
}

/// Where every layer of an encoder has an attention, the layers are loaded in the order of their
/// numbers, each from its own tensors.
pub proof fn layers_are_loaded_in_order(w: WeightsView, prefix: Seq<char>, count: nat, i: int)
    requires
        encoder_of(w, prefix, count) is Ok,
        forall|j: nat| j < count ==> w.has(prefix + ".attn_layers."@ + #[trigger] decimal(j) + ".conv_q.weight"@),
    ensures
        encoder_of(w, prefix, count)->Ok_0.len() == count,
        0 <= i < count ==> encoder_layer_of(w, prefix, i as nat) == Ok::<EncoderLayer, Seq<char>>(encoder_of(w, prefix, count)->Ok_0[i]),
    decreases count,
{
    if count > 0 {
        let j: nat = (count - 1) as nat;
        assert(w.has(prefix + ".attn_layers."@ + decimal(j) + ".conv_q.weight"@));
        layers_are_loaded_in_order(w, prefix, j, i);
    }
}

} // verus!
