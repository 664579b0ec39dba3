//! The reference encoder of a SoVITS model that works on spectrograms: which tensors it is made
//! of.

use crate::models::sovits_flow::{condition_of, load_condition, WnView, WN};
use crate::models::weights::{
    conv_of, convs_of, load_conv, load_convs, under, Conv, ConvKind, Weights, WeightsView,
};
use vstd::prelude::*;

verus! {

/// How many layers of gated convolutions are looked at.
pub const ENCQ_LAYERS: usize = 16;

/// The gated convolutions under a prefix below a count: each for which there is a direction.
pub open spec fn sparse_wn_of(w: WeightsView, prefix: Seq<char>, count: nat) -> Result<
    WnView,
    Seq<char>,
> {
    match convs_of(w, prefix + ".in_layers."@, count, ConvKind::NormedWide) {
        Err(e) => Err(e),
        Ok(in_layers) => match convs_of(
            w,
            prefix + ".res_skip_layers."@,
            count,
            ConvKind::NormedWide,
        ) {
            Err(e) => Err(e),
            Ok(res_skip_layers) => match condition_of(w, prefix) {
                Err(e) => Err(e),
                Ok(cond_layer) => Ok(
                    WnView { in_layers, res_skip_layers, cond_layer, n_layers: in_layers.len() },
                ),
            },
        },
    }
}

/// The gated convolutions under a prefix below a count, or the first name that is missing.
pub fn load_sparse_wn(w: &Weights, prefix: &str, count: usize) -> (r: Result<WN, String>)
    ensures
        match r {
            Ok(wn) => wn.counted() && sparse_wn_of(w@, prefix@, count as nat) == Ok::<
                WnView,
                Seq<char>,
            >(wn@),
            Err(e) => sparse_wn_of(w@, prefix@, count as nat) == Err::<WnView, Seq<char>>(e@),
        },
{
    let in_layers = match load_convs(
        w,
        under(prefix, ".in_layers.").as_str(),
        count,
        ConvKind::NormedWide,
    ) {
        Ok(list) => list,
        Err(e) => return Err(e),
    };
    let res_skip_layers = match load_convs(
        w,
        under(prefix, ".res_skip_layers.").as_str(),
        count,
        ConvKind::NormedWide,
    ) {
        Ok(list) => list,
        Err(e) => return Err(e),
    };
    let cond_layer = match load_condition(w, prefix) {
        Ok(conv) => conv,
        Err(e) => return Err(e),
    };
    let n_layers = in_layers.len();
    Ok(WN { in_layers, res_skip_layers, cond_layer, n_layers })
}

/// The reference encoder.
pub struct EncQ {
    pub pre: Conv,
    pub enc: WN,
    pub proj: Conv,
    pub out_channels: usize,
}

/// The reference encoder.
pub struct EncQView {
    pub pre: Conv,
    pub enc: WnView,
    pub proj: Conv,
    pub out_channels: usize,
}

/// The reference encoder of a model file.
pub open spec fn encq_of(w: WeightsView, out_channels: usize) -> Result<EncQView, Seq<char>> {
    match conv_of(w, "enc_q.pre"@, ConvKind::Plain) {
        Err(e) => Err(e),
        Ok(pre) => match sparse_wn_of(w, "enc_q.enc"@, ENCQ_LAYERS as nat) {
            Err(e) => Err(e),
            Ok(enc) => match conv_of(w, "enc_q.proj"@, ConvKind::Unpadded) {
                Err(e) => Err(e),
                Ok(proj) => Ok(EncQView { pre, enc, proj, out_channels }),
            },
        },
    }
}

impl EncQ {
    /// The parts of the encoder.
    pub open spec fn view(&self) -> EncQView {
        EncQView {
            pre: self.pre,
            enc: self.enc@,
            proj: self.proj,
            out_channels: self.out_channels,
        }
    }

    /// The reference encoder of a model file, or the first name that is missing.
    pub fn load(w: &Weights, out_channels: usize) -> (r: Result<Self, String>)
        ensures
            match r {
                Ok(enc) => enc.enc.counted() && encq_of(w@, out_channels) == Ok::<
                    EncQView,
                    Seq<char>,
                >(enc@),
                Err(e) => encq_of(w@, out_channels) == Err::<EncQView, Seq<char>>(e@),
            },
    {
        let pre = match load_conv(w, "enc_q.pre", ConvKind::Plain) {
            Ok(conv) => conv,
            Err(e) => return Err(e),
        };
        let enc = match load_sparse_wn(w, "enc_q.enc", ENCQ_LAYERS) {
            Ok(enc) => enc,
            Err(e) => return Err(e),
        };
        match load_conv(w, "enc_q.proj", ConvKind::Unpadded) {
            Ok(proj) => Ok(EncQ { pre, enc, proj, out_channels }),
            Err(e) => Err(e),
        }
    }
}

} // verus!
