//! The feature extractor for speech: which tensors it is made of, and of which shapes.

use crate::models::weights::{
    indexed, same_list, same_outcome, under, Affine, Weights, WeightsView,
};
use crate::strings::decimal;
use vstd::prelude::*;

verus! {

/// How many convolutions the samples go through.
pub const CNN_LAYERS: usize = 7;

/// The channels behind each convolution.
pub const CNN_CHANNELS: usize = 512;

/// The width of the encoder.
pub const HIDDEN: usize = 768;

/// How many heads the attention has.
pub const HEADS: usize = 12;

/// The width of the feed-forward networks.
pub const INNER: usize = 3072;

/// How many layers the encoder has.
pub const ENCODER_LAYERS: usize = 12;

/// The width of the convolution that tells positions.
pub const POSITION_KERNEL: usize = 128;

/// How many groups of channels the convolution that tells positions keeps apart.
pub const POSITION_GROUPS: usize = 16;

/// A convolution that samples go through.
#[derive(Debug, Clone, Copy, PartialEq, Eq, Structural)]
pub struct CnnLayer {
    pub conv: usize,
    pub norm: Option<Affine>,
    pub stride: usize,
}

/// A layer of the encoder.
#[derive(Debug, Clone, Copy, PartialEq, Eq, Structural)]
pub struct TransformerLayer {
    pub ln1: Affine,
    pub q: Affine,
    pub k: Affine,
    pub v: Affine,
    pub out: Affine,
    pub ln2: Affine,
    pub intermediate: Affine,
    pub output: Affine,
}

/// The feature extractor by the places of its tensors.
pub struct Wav2Vec2Model {
    pub cnn: Vec<CnnLayer>,
    pub fp_ln: Affine,
    pub fp_proj: Affine,
    pub pos_conv: Affine,
    pub enc_ln: Affine,
    pub layers: Vec<TransformerLayer>,
}

/// The feature extractor by the places of its tensors.
pub struct Wav2Vec2View {
    pub cnn: Seq<CnnLayer>,
    pub fp_ln: Affine,
    pub fp_proj: Affine,
    pub pos_conv: Affine,
    pub enc_ln: Affine,
    pub layers: Seq<TransformerLayer>,
}

impl View for Wav2Vec2Model {
    type V = Wav2Vec2View;

    open spec fn view(&self) -> Wav2Vec2View {
        Wav2Vec2View {
            cnn: self.cnn@,
            fp_ln: self.fp_ln,
            fp_proj: self.fp_proj,
            pos_conv: self.pos_conv,
            enc_ln: self.enc_ln,
            layers: self.layers@,
        }
    }
}

/// How wide a convolution is.
pub open spec fn kernel_of(layer: int) -> usize {
    if layer == 0 {
        10
    } else if layer < 5 {
        3
    } else {
        2
    }
}

/// How far a convolution steps.
pub open spec fn stride_of(layer: int) -> usize {
    if layer == 0 {
        5
    } else {
        2
    }
}

/// The weight and the bias of given shapes under a prefix, or the first of them that is missing
/// or shaped otherwise.
pub open spec fn shaped_affine(
    w: WeightsView,
    prefix: Seq<char>,
    weight: Seq<usize>,
    bias: Seq<usize>,
) -> Result<Affine, Seq<char>> {
    match w.need_shaped(prefix + ".weight"@, weight) {
        Err(e) => Err(e),
        Ok(weight) => match w.need_shaped(prefix + ".bias"@, bias) {
            Err(e) => Err(e),
            Ok(bias) => Ok(Affine { weight, bias }),
        },
    }
}

/// The normalisation of a size under a prefix.
pub open spec fn norm_of(w: WeightsView, prefix: Seq<char>, size: usize) -> Result<
    Affine,
    Seq<char>,
> {
    shaped_affine(w, prefix, seq![size], seq![size])
}

/// The linear map of given sizes under a prefix.
pub open spec fn linear_of(w: WeightsView, prefix: Seq<char>, from: usize, to: usize) -> Result<
    Affine,
    Seq<char>,
> {
    shaped_affine(w, prefix, seq![to, from], seq![to])
}

/// A convolution that samples go through: the first takes one channel and is normalised, the
/// others take what the one before gives.
pub open spec fn cnn_layer_of(w: WeightsView, layer: nat) -> Result<CnnLayer, Seq<char>> {
    let prefix = "feature_extractor.conv_layers."@ + decimal(layer);
    let channels: usize = if layer == 0 {
        1
    } else {
        CNN_CHANNELS
    };
    let stride = stride_of(layer as int);
    match w.need_shaped(
        prefix + ".conv.weight"@,
        seq![CNN_CHANNELS, channels, kernel_of(layer as int)],
    ) {
        Err(e) => Err(e),
        Ok(conv) => if layer == 0 {
            match norm_of(w, prefix + ".layer_norm"@, CNN_CHANNELS) {
                Err(e) => Err(e),
                Ok(norm) => Ok(CnnLayer { conv, norm: Some(norm), stride }),
            }
        } else {
            Ok(CnnLayer { conv, norm: None, stride })
        },
    }
}

/// The convolutions below a count.
pub open spec fn cnn_of(w: WeightsView, count: nat) -> Result<Seq<CnnLayer>, Seq<char>>
    decreases count,
{
    if count == 0 {
        Ok(Seq::empty())
    } else {
        match cnn_of(w, (count - 1) as nat) {
            Err(e) => Err(e),
            Ok(before) => match cnn_layer_of(w, (count - 1) as nat) {
                Err(e) => Err(e),
                Ok(layer) => Ok(before.push(layer)),
            },
        }
    }
}

/// The four projections of the attention under a prefix.
pub open spec fn projections_of(w: WeightsView, prefix: Seq<char>) -> Result<
    (Affine, Affine, Affine, Affine),
    Seq<char>,
> {
    match linear_of(w, prefix + ".attention.q_proj"@, HIDDEN, HIDDEN) {
        Err(e) => Err(e),
        Ok(q) => match linear_of(w, prefix + ".attention.k_proj"@, HIDDEN, HIDDEN) {
            Err(e) => Err(e),
            Ok(k) => match linear_of(w, prefix + ".attention.v_proj"@, HIDDEN, HIDDEN) {
                Err(e) => Err(e),
                Ok(v) => match linear_of(w, prefix + ".attention.out_proj"@, HIDDEN, HIDDEN) {
                    Err(e) => Err(e),
                    Ok(out) => Ok((q, k, v, out)),
                },
            },
        },
    }
}

/// The layer of the encoder under a prefix.
pub open spec fn transformer_layer_of(w: WeightsView, prefix: Seq<char>) -> Result<
    TransformerLayer,
    Seq<char>,
> {
    match norm_of(w, prefix + ".layer_norm"@, HIDDEN) {
        Err(e) => Err(e),
        Ok(ln1) => match projections_of(w, prefix) {
            Err(e) => Err(e),
            Ok((q, k, v, out)) => match norm_of(w, prefix + ".final_layer_norm"@, HIDDEN) {
                Err(e) => Err(e),
                Ok(ln2) => match linear_of(
                    w,
                    prefix + ".feed_forward.intermediate_dense"@,
                    HIDDEN,
                    INNER,
                ) {
                    Err(e) => Err(e),
                    Ok(intermediate) => match linear_of(
                        w,
                        prefix + ".feed_forward.output_dense"@,
                        INNER,
                        HIDDEN,
                    ) {
                        Err(e) => Err(e),
                        Ok(output) => Ok(
                            TransformerLayer { ln1, q, k, v, out, ln2, intermediate, output },
                        ),
                    },
                },
            },
        },
    }
}

/// The layers of the encoder below a count.
pub open spec fn layers_of(w: WeightsView, count: nat) -> Result<Seq<TransformerLayer>, Seq<char>>
    decreases count,
{
    if count == 0 {
        Ok(Seq::empty())
    } else {
        let i = (count - 1) as nat;
        match layers_of(w, i) {
            Err(e) => Err(e),
            Ok(before) => match transformer_layer_of(w, "encoder.layers."@ + decimal(i)) {
                Err(e) => Err(e),
                Ok(layer) => Ok(before.push(layer)),
            },
        }
    }
}

/// What stands between the convolutions and the layers of the encoder: the projection of the
/// features, the convolution that tells positions and the normalisation.
pub open spec fn middle_of(w: WeightsView) -> Result<(Affine, Affine, Affine, Affine), Seq<char>> {
    match norm_of(w, "feature_projection.layer_norm"@, CNN_CHANNELS) {
        Err(e) => Err(e),
        Ok(fp_ln) => match linear_of(w, "feature_projection.projection"@, CNN_CHANNELS, HIDDEN) {
            Err(e) => Err(e),
            Ok(fp_proj) => match shaped_affine(
                w,
                "encoder.pos_conv_embed.conv"@,
                seq![HIDDEN, HIDDEN / POSITION_GROUPS, POSITION_KERNEL],
                seq![HIDDEN],
            ) {
                Err(e) => Err(e),
                Ok(pos_conv) => match norm_of(w, "encoder.layer_norm"@, HIDDEN) {
                    Err(e) => Err(e),
                    Ok(enc_ln) => Ok((fp_ln, fp_proj, pos_conv, enc_ln)),
                },
            },
        },
    }
}

/// The feature extractor of a model file, or the first name that is missing or shaped otherwise.
pub open spec fn extractor_of(w: WeightsView) -> Result<Wav2Vec2View, Seq<char>> {
    match cnn_of(w, CNN_LAYERS as nat) {
        Err(e) => Err(e),
        Ok(cnn) => match middle_of(w) {
            Err(e) => Err(e),
            Ok((fp_ln, fp_proj, pos_conv, enc_ln)) => match layers_of(w, ENCODER_LAYERS as nat) {
                Err(e) => Err(e),
                Ok(layers) => Ok(Wav2Vec2View { cnn, fp_ln, fp_proj, pos_conv, enc_ln, layers }),
            },
        },
    }
}

proof fn lemma_cnn_fail(w: WeightsView, i: nat, count: nat)
    requires
        i <= count,
        cnn_of(w, i) is Err,
    ensures
        cnn_of(w, count) == cnn_of(w, i),
    decreases count,
{
    if i < count {
        lemma_cnn_fail(w, i, (count - 1) as nat);
    }
}

proof fn lemma_layers_fail(w: WeightsView, i: nat, count: nat)
    requires
        i <= count,
        layers_of(w, i) is Err,
    ensures
        layers_of(w, count) == layers_of(w, i),
    decreases count,
{
    if i < count {
        lemma_layers_fail(w, i, (count - 1) as nat);
    }
}

/// The weight and the bias of given shapes under a prefix.
fn load_shaped(w: &Weights, prefix: &str, weight: Vec<usize>, bias: Vec<usize>) -> (r: Result<
    Affine,
    String,
>)
    ensures
        same_outcome(r, shaped_affine(w@, prefix@, weight@, bias@)),
{
    let weight = match w.get_shaped(under(prefix, ".weight").as_str(), &weight) {
        Ok(place) => place,
        Err(e) => return Err(e),
    };
    match w.get_shaped(under(prefix, ".bias").as_str(), &bias) {
        Ok(bias) => Ok(Affine { weight, bias }),
        Err(e) => Err(e),
    }
}

/// The normalisation of a size under a prefix.
fn load_norm(w: &Weights, prefix: &str, size: usize) -> (r: Result<Affine, String>)
    ensures
        same_outcome(r, norm_of(w@, prefix@, size)),
{
    let (weight, bias) = (vec![size], vec![size]);
    assert(weight@ =~= seq![size] && bias@ =~= seq![size]);
    load_shaped(w, prefix, weight, bias)
}

/// The linear map of given sizes under a prefix.
fn load_linear(w: &Weights, prefix: &str, from: usize, to: usize) -> (r: Result<Affine, String>)
    ensures
        same_outcome(r, linear_of(w@, prefix@, from, to)),
{
    let (weight, bias) = (vec![to, from], vec![to]);
    assert(weight@ =~= seq![to, from] && bias@ =~= seq![to]);
    load_shaped(w, prefix, weight, bias)
}

impl CnnLayer {
    /// A convolution that samples go through.
    pub fn load(w: &Weights, layer: usize) -> (r: Result<Self, String>)
        ensures
            same_outcome(r, cnn_layer_of(w@, layer as nat)),
    {
        let prefix = indexed("feature_extractor.conv_layers.", layer);
        let channels: usize = if layer == 0 {
            1
        } else {
            CNN_CHANNELS
        };
        let kernel: usize = if layer == 0 {
            10
        } else if layer < 5 {
            3
        } else {
            2
        };
        let stride: usize = if layer == 0 {
            5
        } else {
            2
        };
        let dims = vec![CNN_CHANNELS, channels, kernel];
        assert(dims@ =~= seq![CNN_CHANNELS, channels, kernel]);
        let conv = match w.get_shaped(under(prefix.as_str(), ".conv.weight").as_str(), &dims) {
            Ok(place) => place,
            Err(e) => return Err(e),
        };
        if layer == 0 {
            match load_norm(w, under(prefix.as_str(), ".layer_norm").as_str(), CNN_CHANNELS) {
                Ok(norm) => Ok(CnnLayer { conv, norm: Some(norm), stride }),
                Err(e) => Err(e),
            }
        } else {
            Ok(CnnLayer { conv, norm: None, stride })
        }
    }

    /// The weight of the normalisation, where there is one.
    pub fn norm_weight(&self) -> (r: Option<usize>)
        ensures
            r == match self.norm {
                Some(norm) => Some(norm.weight),
                None => None,
            },
    {
        match self.norm {
            Some(norm) => Some(norm.weight),
            None => None,
        }
    }
}

/// The four projections of the attention under a prefix.
fn load_projections(w: &Weights, prefix: &str) -> (r: Result<
    (Affine, Affine, Affine, Affine),
    String,
>)
    ensures
        same_outcome(r, projections_of(w@, prefix@)),
{
    let q = match load_linear(w, under(prefix, ".attention.q_proj").as_str(), HIDDEN, HIDDEN) {
        Ok(a) => a,
        Err(e) => return Err(e),
    };
    let k = match load_linear(w, under(prefix, ".attention.k_proj").as_str(), HIDDEN, HIDDEN) {
        Ok(a) => a,
        Err(e) => return Err(e),
    };
    let v = match load_linear(w, under(prefix, ".attention.v_proj").as_str(), HIDDEN, HIDDEN) {
        Ok(a) => a,
        Err(e) => return Err(e),
    };
    match load_linear(w, under(prefix, ".attention.out_proj").as_str(), HIDDEN, HIDDEN) {
        Ok(out) => Ok((q, k, v, out)),
        Err(e) => Err(e),
    }
}

impl TransformerLayer {
    /// The layer of the encoder under a prefix.
    pub fn load(w: &Weights, prefix: &str) -> (r: Result<Self, String>)
        ensures
            same_outcome(r, transformer_layer_of(w@, prefix@)),
    {
        let ln1 = match load_norm(w, under(prefix, ".layer_norm").as_str(), HIDDEN) {
            Ok(a) => a,
            Err(e) => return Err(e),
        };
        let (q, k, v, out) = match load_projections(w, prefix) {
            Ok(all) => all,
            Err(e) => return Err(e),
        };
        let ln2 = match load_norm(w, under(prefix, ".final_layer_norm").as_str(), HIDDEN) {
            Ok(a) => a,
            Err(e) => return Err(e),
        };
        let intermediate = match load_linear(
            w,
            under(prefix, ".feed_forward.intermediate_dense").as_str(),
            HIDDEN,
            INNER,
        ) {
            Ok(a) => a,
            Err(e) => return Err(e),
        };
        match load_linear(w, under(prefix, ".feed_forward.output_dense").as_str(), INNER, HIDDEN) {
            Ok(output) => Ok(TransformerLayer { ln1, q, k, v, out, ln2, intermediate, output }),
            Err(e) => Err(e),
        }
    }
}

/// The convolutions that samples go through.
fn load_cnn(w: &Weights) -> (r: Result<Vec<CnnLayer>, String>)
    ensures
        same_list(r, cnn_of(w@, CNN_LAYERS as nat)),
{
    let mut cnn: Vec<CnnLayer> = Vec::new();
    for i in 0..CNN_LAYERS
        invariant
            cnn_of(w@, i as nat) == Ok::<Seq<CnnLayer>, Seq<char>>(cnn@),
    {
        match CnnLayer::load(w, i) {
            Ok(layer) => cnn.push(layer),
            Err(e) => {
                proof {
                    lemma_cnn_fail(w@, (i + 1) as nat, CNN_LAYERS as nat);
                }
                return Err(e);
            },
        }
    }
    Ok(cnn)
}

/// The layers of the encoder.
fn load_layers(w: &Weights) -> (r: Result<Vec<TransformerLayer>, String>)
    ensures
        same_list(r, layers_of(w@, ENCODER_LAYERS as nat)),
{
    let mut layers: Vec<TransformerLayer> = Vec::new();
    for i in 0..ENCODER_LAYERS
        invariant
            layers_of(w@, i as nat) == Ok::<Seq<TransformerLayer>, Seq<char>>(layers@),
    {
        match TransformerLayer::load(w, indexed("encoder.layers.", i).as_str()) {
            Ok(layer) => layers.push(layer),
            Err(e) => {
                proof {
                    lemma_layers_fail(w@, (i + 1) as nat, ENCODER_LAYERS as nat);
                }
                return Err(e);
            },
        }
    }
    Ok(layers)
}

/// What stands between the convolutions and the layers of the encoder.
fn load_middle(w: &Weights) -> (r: Result<(Affine, Affine, Affine, Affine), String>)
    ensures
        same_outcome(r, middle_of(w@)),
{
    let fp_ln = match load_norm(w, "feature_projection.layer_norm", CNN_CHANNELS) {
        Ok(a) => a,
        Err(e) => return Err(e),
    };
    let fp_proj = match load_linear(w, "feature_projection.projection", CNN_CHANNELS, HIDDEN) {
        Ok(a) => a,
        Err(e) => return Err(e),
    };
    let (weight, bias) = (
        vec![HIDDEN, HIDDEN / POSITION_GROUPS, POSITION_KERNEL],
        vec![HIDDEN],
    );
    assert(weight@ =~= seq![HIDDEN, HIDDEN / POSITION_GROUPS, POSITION_KERNEL]);
    assert(bias@ =~= seq![HIDDEN]);
    let pos_conv = match load_shaped(w, "encoder.pos_conv_embed.conv", weight, bias) {
        Ok(a) => a,
        Err(e) => return Err(e),
    };
    match load_norm(w, "encoder.layer_norm", HIDDEN) {
        Ok(enc_ln) => Ok((fp_ln, fp_proj, pos_conv, enc_ln)),
        Err(e) => Err(e),
    }
}

impl Wav2Vec2Model {
    /// The feature extractor of a model file, or the first name that is missing or shaped
    /// otherwise.
    pub fn load(w: &Weights) -> (r: Result<Self, String>)
        ensures
            match r {
                Ok(m) => extractor_of(w@) == Ok::<Wav2Vec2View, Seq<char>>(m@),
                Err(e) => extractor_of(w@) == Err::<Wav2Vec2View, Seq<char>>(e@),
            },
    {
        let cnn = match load_cnn(w) {
            Ok(cnn) => cnn,
            Err(e) => return Err(e),
        };
        let (fp_ln, fp_proj, pos_conv, enc_ln) = match load_middle(w) {
            Ok(all) => all,
            Err(e) => return Err(e),
        };
        match load_layers(w) {
            Ok(layers) => Ok(
                Wav2Vec2Model { cnn, fp_ln, fp_proj, pos_conv, enc_ln, layers },
            ),
            Err(e) => Err(e),
        }
    }
}

/// The convolutions are loaded in the order of their numbers, each from its own tensors.
pub proof fn convolutions_are_loaded_in_order(w: WeightsView, count: nat, i: int)
    requires
        cnn_of(w, count) is Ok,
    ensures
        cnn_of(w, count)->Ok_0.len() == count,
        0 <= i < count ==> cnn_layer_of(w, i as nat) == Ok::<CnnLayer, Seq<char>>(cnn_of(w, count)->Ok_0[i]),
    decreases count,
{
    if count > 0 {
        let j: nat = (count - 1) as nat;
        convolutions_are_loaded_in_order(w, j, i);
    }
}

/// The layers of the encoder are loaded in the order of their numbers, each from its own tensors.
pub proof fn layers_are_loaded_in_order(w: WeightsView, count: nat, i: int)
    requires
        layers_of(w, count) is Ok,
    ensures
        layers_of(w, count)->Ok_0.len() == count,
        0 <= i < count ==> transformer_layer_of(w, "encoder.layers."@ + decimal(i as nat)) == Ok::<TransformerLayer, Seq<char>>(layers_of(w, count)->Ok_0[i]),
    decreases count,
{
    if count > 0 {
        let j: nat = (count - 1) as nat;
        layers_are_loaded_in_order(w, j, i);
    }
}

/// The samples that one frame stands for after some convolutions.
pub open spec fn samples_per_frame(layers: nat) -> int
    decreases layers,
{
    if layers == 0 {
        1
    } else {
        samples_per_frame((layers - 1) as nat) * stride_of(layers - 1)
    }
}

/// Seven convolutions make a frame of 320 samples; the first is 10 wide, the four behind it 3,
/// and the last two 2.
pub proof fn frames_stand_for_320_samples()
    ensures
        samples_per_frame(7) == 320,
        kernel_of(0) == 10,
        kernel_of(1) == 3 && kernel_of(2) == 3 && kernel_of(3) == 3 && kernel_of(4) == 3,
        kernel_of(5) == 2 && kernel_of(6) == 2,
{
    assert(samples_per_frame(0) == 1);
    assert(samples_per_frame(1) == 5);
    assert(samples_per_frame(2) == 10);
    assert(samples_per_frame(3) == 20);
    assert(samples_per_frame(4) == 40);
    assert(samples_per_frame(5) == 80);
    assert(samples_per_frame(6) == 160);
}

} // verus!
