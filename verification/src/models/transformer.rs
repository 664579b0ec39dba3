//! The transformers: their sizes, and which tensors their layers are made of.

use crate::models::weights::{
    affine_of, indexed, load_affine, same_list, same_outcome, under, Affine, Weights, WeightsView,
};
use crate::strings::decimal;
use crate::Error;
use vstd::prelude::*;

verus! {

/// The sizes of a transformer.
#[derive(Debug, Clone, Copy, PartialEq, Eq, Structural)]
pub struct TransformerConfig {
    pub vocab_size: usize,
    pub hidden_size: usize,
    pub intermediate_size: usize,
    pub num_hidden_layers: usize,
    pub num_attention_heads: usize,
    pub max_seq_len: usize,
}

impl Default for TransformerConfig {
    fn default() -> (r: Self)
        ensures
            r == (TransformerConfig {
                vocab_size: 512,
                hidden_size: 512,
                intermediate_size: 2048,
                num_hidden_layers: 8,
                num_attention_heads: 8,
                max_seq_len: 1024,
            }),
    {
        TransformerConfig {
            vocab_size: 512,
            hidden_size: 512,
            intermediate_size: 2048,
            num_hidden_layers: 8,
            num_attention_heads: 8,
            max_seq_len: 1024,
        }
    }
}

/// A layer with one projection for queries, keys and values.
#[derive(Debug, Clone, Copy, PartialEq, Eq, Structural)]
pub struct FusedLayer {
    pub in_proj_weight: usize,
    pub in_proj_bias: usize,
    pub out_proj: Affine,
    pub linear1: Affine,
    pub linear2: Affine,
    pub norm1: Affine,
    pub norm2: Affine,
}

/// The feed-forward network and the normalisations under a prefix.
pub open spec fn tail_of(w: WeightsView, prefix: Seq<char>) -> Result<
    (Affine, Affine, Affine, Affine),
    Seq<char>,
> {
    match affine_of(w, prefix + ".linear1"@) {
        Err(e) => Err(e),
        Ok(linear1) => match affine_of(w, prefix + ".linear2"@) {
            Err(e) => Err(e),
            Ok(linear2) => match affine_of(w, prefix + ".norm1"@) {
                Err(e) => Err(e),
                Ok(norm1) => match affine_of(w, prefix + ".norm2"@) {
                    Err(e) => Err(e),
                    Ok(norm2) => Ok((linear1, linear2, norm1, norm2)),
                },
            },
        },
    }
}

/// Whether a tensor has rows for queries, keys and values of a width.
pub open spec fn has_thirds(w: WeightsView, place: usize, hidden: usize) -> bool {
    match w.dimension(place, 0) {
        Some(rows) => rows >= 3 * hidden,
        None => false,
    }
}

/// The joint projection under a prefix. A tensor with too few rows is refused like a missing one.
pub open spec fn in_proj_of(w: WeightsView, prefix: Seq<char>, hidden: usize) -> Result<
    (usize, usize),
    Seq<char>,
> {
    match w.need(prefix + ".self_attn.in_proj_weight"@) {
        Err(e) => Err(e),
        Ok(weight) => match w.need(prefix + ".self_attn.in_proj_bias"@) {
            Err(e) => Err(e),
            Ok(bias) => if !has_thirds(w, weight, hidden) {
                Err(prefix + ".self_attn.in_proj_weight"@)
            } else if !has_thirds(w, bias, hidden) {
                Err(prefix + ".self_attn.in_proj_bias"@)
            } else {
                Ok((weight, bias))
            },
        },
    }
}

/// The layer of a width under a prefix.
pub open spec fn fused_layer_of(w: WeightsView, prefix: Seq<char>, hidden: usize) -> Result<
    FusedLayer,
    Seq<char>,
> {
    match in_proj_of(w, prefix, hidden) {
        Err(e) => Err(e),
        Ok((in_proj_weight, in_proj_bias)) => match affine_of(w, prefix + ".self_attn.out_proj"@) {
            Err(e) => Err(e),
            Ok(out_proj) => match tail_of(w, prefix) {
                Err(e) => Err(e),
                Ok((linear1, linear2, norm1, norm2)) => Ok(
                    FusedLayer {
                        in_proj_weight,
                        in_proj_bias,
                        out_proj,
                        linear1,
                        linear2,
                        norm1,
                        norm2,
                    },
                ),
            },
        },
    }
}

/// The layers under numbered prefixes below a count.
pub open spec fn fused_layers_of(w: WeightsView, count: nat, hidden: usize) -> Result<
    Seq<FusedLayer>,
    Seq<char>,
>
    decreases count,
{
    if count == 0 {
        Ok(Seq::empty())
    } else {
        let i = (count - 1) as nat;
        match fused_layers_of(w, i, hidden) {
            Err(e) => Err(e),
            Ok(before) => match fused_layer_of(w, "model.h.layers."@ + decimal(i), hidden) {
                Ok(layer) => Ok(before.push(layer)),
                Err(e) => Err(e),
            },
        }
    }
}

proof fn lemma_layers_fail(w: WeightsView, i: nat, count: nat, hidden: usize)
    requires
        i <= count,
        fused_layers_of(w, i, hidden) is Err,
    ensures
        fused_layers_of(w, count, hidden) == fused_layers_of(w, i, hidden),
    decreases count,
{
    if i < count {
        lemma_layers_fail(w, i, (count - 1) as nat, hidden);
    }
}

/// The feed-forward network and the normalisations under a prefix.
fn load_tail(w: &Weights, prefix: &str) -> (r: Result<(Affine, Affine, Affine, Affine), String>)
    ensures
        same_outcome(r, tail_of(w@, prefix@)),
{
    let linear1 = match load_affine(w, under(prefix, ".linear1").as_str()) {
        Ok(a) => a,
        Err(e) => return Err(e),
    };
    let linear2 = match load_affine(w, under(prefix, ".linear2").as_str()) {
        Ok(a) => a,
        Err(e) => return Err(e),
    };
    let norm1 = match load_affine(w, under(prefix, ".norm1").as_str()) {
        Ok(a) => a,
        Err(e) => return Err(e),
    };
    match load_affine(w, under(prefix, ".norm2").as_str()) {
        Ok(norm2) => Ok((linear1, linear2, norm1, norm2)),
        Err(e) => Err(e),
    }
}

/// Whether a tensor has rows for queries, keys and values of a width.
fn check_thirds(w: &Weights, place: usize, hidden: usize) -> (r: bool)
    ensures
        r == has_thirds(w@, place, hidden),
{
    match w.dim(place, 0) {
        Some(rows) => rows / 3 >= hidden,
        None => false,
    }
}

/// The joint projection under a prefix.
fn load_in_proj(w: &Weights, prefix: &str, hidden: usize) -> (r: Result<(usize, usize), String>)
    ensures
        same_outcome(r, in_proj_of(w@, prefix@, hidden)),
{
    let weight_name = under(prefix, ".self_attn.in_proj_weight");
    let bias_name = under(prefix, ".self_attn.in_proj_bias");
    let weight = match w.get(weight_name.as_str()) {
        Ok(place) => place,
        Err(e) => return Err(e),
    };
    let bias = match w.get(bias_name.as_str()) {
        Ok(place) => place,
        Err(e) => return Err(e),
    };
    if !check_thirds(w, weight, hidden) {
        return Err(weight_name);
    }
    if !check_thirds(w, bias, hidden) {
        return Err(bias_name);
    }
    Ok((weight, bias))
}

/// The layer of a width under a prefix, or the first name that is missing.
pub fn load_fused_layer(w: &Weights, prefix: &str, hidden: usize) -> (r: Result<FusedLayer, String>)
    ensures
        same_outcome(r, fused_layer_of(w@, prefix@, hidden)),
{
    let (in_proj_weight, in_proj_bias) = match load_in_proj(w, prefix, hidden) {
        Ok(places) => places,
        Err(e) => return Err(e),
    };
    let out_proj = match load_affine(w, under(prefix, ".self_attn.out_proj").as_str()) {
        Ok(a) => a,
        Err(e) => return Err(e),
    };
    match load_tail(w, prefix) {
        Ok((linear1, linear2, norm1, norm2)) => Ok(
            FusedLayer { in_proj_weight, in_proj_bias, out_proj, linear1, linear2, norm1, norm2 },
        ),
        Err(e) => Err(e),
    }
}

/// The layers under numbered prefixes below a count, or the first name that is missing.
pub fn load_fused_layers(w: &Weights, count: usize, hidden: usize) -> (r: Result<
    Vec<FusedLayer>,
    String,
>)
    ensures
        same_list(r, fused_layers_of(w@, count as nat, hidden)),
{
    let mut layers: Vec<FusedLayer> = Vec::new();
    for i in 0..count
        invariant
            fused_layers_of(w@, i as nat, hidden) == Ok::<Seq<FusedLayer>, Seq<char>>(layers@),
    {
        match load_fused_layer(w, indexed("model.h.layers.", i).as_str(), hidden) {
            Ok(layer) => layers.push(layer),
            Err(e) => {
                proof {
                    lemma_layers_fail(w@, (i + 1) as nat, count as nat, hidden);
                }
                return Err(e);
            },
        }
    }
    Ok(layers)
}

/// A linear map: a weight, and a bias where there is one.
#[derive(Debug, Clone, Copy, PartialEq, Eq, Structural)]
pub struct Linear {
    pub weight: usize,
    pub bias: Option<usize>,
}

/// A layer with projections of its own for queries, keys and values.
#[derive(Debug, Clone, Copy, PartialEq, Eq, Structural)]
pub struct TransformerBlock {
    pub wq: Linear,
    pub wk: Linear,
    pub wv: Linear,
    pub wo: Linear,
    pub w1: Linear,
    pub w2: Linear,
    pub attn_norm: Affine,
    pub ffn_norm: Affine,
}

/// A transformer with learned positions, by the places of its tensors.
pub struct Transformer {
    pub config: TransformerConfig,
    pub token_embedding: usize,
    pub position_embedding: usize,
    pub layers: Vec<TransformerBlock>,
    pub norm: Affine,
    pub output_projection: Linear,
}

/// A transformer with learned positions, by the places of its tensors.
pub struct TransformerView {
    pub config: TransformerConfig,
    pub token_embedding: usize,
    pub position_embedding: usize,
    pub layers: Seq<TransformerBlock>,
    pub norm: Affine,
    pub output_projection: Linear,
}

impl View for Transformer {
    type V = TransformerView;

    open spec fn view(&self) -> TransformerView {
        TransformerView {
            config: self.config,
            token_embedding: self.token_embedding,
            position_embedding: self.position_embedding,
            layers: self.layers@,
            norm: self.norm,
            output_projection: self.output_projection,
        }
    }
}

/// The linear map under a prefix.
pub open spec fn linear_of(w: WeightsView, prefix: Seq<char>) -> Result<Linear, Seq<char>> {
    match w.need(prefix + ".weight"@) {
        Err(e) => Err(e),
        Ok(weight) => Ok(Linear { weight, bias: w.maybe(prefix + ".bias"@) }),
    }
}

/// The projections of the attention under a prefix.
pub open spec fn projections_of(w: WeightsView, prefix: Seq<char>) -> Result<
    (Linear, Linear, Linear, Linear),
    Seq<char>,
> {
    match linear_of(w, prefix + ".attention.wq"@) {
        Err(e) => Err(e),
        Ok(wq) => match linear_of(w, prefix + ".attention.wk"@) {
            Err(e) => Err(e),
            Ok(wk) => match linear_of(w, prefix + ".attention.wv"@) {
                Err(e) => Err(e),
                Ok(wv) => match linear_of(w, prefix + ".attention.wo"@) {
                    Err(e) => Err(e),
                    Ok(wo) => Ok((wq, wk, wv, wo)),
                },
            },
        },
    }
}

/// The layer with projections of its own under a prefix.
pub open spec fn block_of(w: WeightsView, prefix: Seq<char>) -> Result<
    TransformerBlock,
    Seq<char>,
> {
    match projections_of(w, prefix) {
        Err(e) => Err(e),
        Ok((wq, wk, wv, wo)) => match linear_of(w, prefix + ".ffn.w1"@) {
            Err(e) => Err(e),
            Ok(w1) => match linear_of(w, prefix + ".ffn.w2"@) {
                Err(e) => Err(e),
                Ok(w2) => match affine_of(w, prefix + ".attn_norm"@) {
                    Err(e) => Err(e),
                    Ok(attn_norm) => match affine_of(w, prefix + ".ffn_norm"@) {
                        Err(e) => Err(e),
                        Ok(ffn_norm) => Ok(
                            TransformerBlock { wq, wk, wv, wo, w1, w2, attn_norm, ffn_norm },
                        ),
                    },
                },
            },
        },
    }
}

/// The layers with projections of their own below a count.
pub open spec fn blocks_of(w: WeightsView, count: nat) -> Result<Seq<TransformerBlock>, Seq<char>>
    decreases count,
{
    if count == 0 {
        Ok(Seq::empty())
    } else {
        let i = (count - 1) as nat;
        match blocks_of(w, i) {
            Err(e) => Err(e),
            Ok(before) => match block_of(w, "layers."@ + decimal(i)) {
                Ok(block) => Ok(before.push(block)),
                Err(e) => Err(e),
            },
        }
    }
}

/// The learned positions: a tensor that has one for each place of a sequence.
pub open spec fn positions_of(w: WeightsView, max_seq_len: usize) -> Result<usize, Seq<char>> {
    match w.need("pos_emb.weight"@) {
        Err(e) => Err(e),
        Ok(place) => match w.dimension(place, 0) {
            Some(n) if max_seq_len <= n => Ok(place),
            _ => Err("pos_emb.weight"@),
        },
    }
}

/// The transformer of a model file, or the first name that is missing; for too few positions,
/// their name.
pub open spec fn transformer_of(w: WeightsView, config: TransformerConfig) -> Result<
    TransformerView,
    Seq<char>,
> {
    match w.need("tok_emb.weight"@) {
        Err(e) => Err(e),
        Ok(token_embedding) => match positions_of(w, config.max_seq_len) {
            Err(e) => Err(e),
            Ok(position_embedding) => match blocks_of(w, config.num_hidden_layers as nat) {
                Err(e) => Err(e),
                Ok(layers) => match affine_of(w, "norm"@) {
                    Err(e) => Err(e),
                    Ok(norm) => match linear_of(w, "output"@) {
                        Err(e) => Err(e),
                        Ok(output_projection) => Ok(
                            TransformerView {
                                config,
                                token_embedding,
                                position_embedding,
                                layers,
                                norm,
                                output_projection,
                            },
                        ),
                    },
                },
            },
        },
    }
}

proof fn lemma_blocks_fail(w: WeightsView, i: nat, count: nat)
    requires
        i <= count,
        blocks_of(w, i) is Err,
    ensures
        blocks_of(w, count) == blocks_of(w, i),
    decreases count,
{
    if i < count {
        lemma_blocks_fail(w, i, (count - 1) as nat);
    }
}

impl Linear {
    /// The linear map under a prefix.
    pub fn load(w: &Weights, prefix: &str) -> (r: Result<Self, String>)
        ensures
            same_outcome(r, linear_of(w@, prefix@)),
    {
        match w.get(under(prefix, ".weight").as_str()) {
            Ok(weight) => Ok(
                Linear { weight, bias: w.get_optional(under(prefix, ".bias").as_str()) },
            ),
            Err(e) => Err(e),
        }
    }
}

/// The projections of the attention under a prefix.
fn load_projections(w: &Weights, prefix: &str) -> (r: Result<
    (Linear, Linear, Linear, Linear),
    String,
>)
    ensures
        same_outcome(r, projections_of(w@, prefix@)),
{
    let wq = match Linear::load(w, under(prefix, ".attention.wq").as_str()) {
        Ok(a) => a,
        Err(e) => return Err(e),
    };
    let wk = match Linear::load(w, under(prefix, ".attention.wk").as_str()) {
        Ok(a) => a,
        Err(e) => return Err(e),
    };
    let wv = match Linear::load(w, under(prefix, ".attention.wv").as_str()) {
        Ok(a) => a,
        Err(e) => return Err(e),
    };
    match Linear::load(w, under(prefix, ".attention.wo").as_str()) {
        Ok(wo) => Ok((wq, wk, wv, wo)),
        Err(e) => Err(e),
    }
}

impl TransformerBlock {
    /// The layer with projections of its own under a prefix.
    pub fn load(w: &Weights, prefix: &str) -> (r: Result<Self, String>)
        ensures
            same_outcome(r, block_of(w@, prefix@)),
    {
        let (wq, wk, wv, wo) = match load_projections(w, prefix) {
            Ok(all) => all,
            Err(e) => return Err(e),
        };
        let w1 = match Linear::load(w, under(prefix, ".ffn.w1").as_str()) {
            Ok(a) => a,
            Err(e) => return Err(e),
        };
        let w2 = match Linear::load(w, under(prefix, ".ffn.w2").as_str()) {
            Ok(a) => a,
            Err(e) => return Err(e),
        };
        let attn_norm = match load_affine(w, under(prefix, ".attn_norm").as_str()) {
            Ok(a) => a,
            Err(e) => return Err(e),
        };
        match load_affine(w, under(prefix, ".ffn_norm").as_str()) {
            Ok(ffn_norm) => Ok(TransformerBlock { wq, wk, wv, wo, w1, w2, attn_norm, ffn_norm }),
            Err(e) => Err(e),
        }
    }
}

/// The layers with projections of their own below a count.
fn load_blocks(w: &Weights, count: usize) -> (r: Result<Vec<TransformerBlock>, String>)
    ensures
        same_list(r, blocks_of(w@, count as nat)),
{
    let mut layers: Vec<TransformerBlock> = Vec::new();
    for i in 0..count
        invariant
            blocks_of(w@, i as nat) == Ok::<Seq<TransformerBlock>, Seq<char>>(layers@),
    {
        match TransformerBlock::load(w, indexed("layers.", i).as_str()) {
            Ok(layer) => layers.push(layer),
            Err(e) => {
                proof {
                    lemma_blocks_fail(w@, (i + 1) as nat, count as nat);
                }
                return Err(e);
            },
        }
    }
    Ok(layers)
}

/// The learned positions.
fn load_positions(w: &Weights, max_seq_len: usize) -> (r: Result<usize, String>)
    ensures
        same_outcome(r, positions_of(w@, max_seq_len)),
{
    let place = match w.get("pos_emb.weight") {
        Ok(place) => place,
        Err(e) => return Err(e),
    };
    match w.dim(place, 0) {
        Some(n) => {
            if max_seq_len <= n {
                Ok(place)
            } else {
                Err("pos_emb.weight".to_owned())
            }
        },
        None => Err("pos_emb.weight".to_owned()),
    }
}

impl Transformer {
    /// The transformer of a model file, or the first name that is missing; for too few
    /// positions, their name.
    pub fn new(config: TransformerConfig, w: &Weights) -> (r: Result<Self, String>)
        ensures
            match r {
                Ok(t) => transformer_of(w@, config) == Ok::<TransformerView, Seq<char>>(t@),
                Err(e) => transformer_of(w@, config) == Err::<TransformerView, Seq<char>>(e@),
            },
    {
        let token_embedding = match w.get("tok_emb.weight") {
            Ok(place) => place,
            Err(e) => return Err(e),
        };
        let position_embedding = match load_positions(w, config.max_seq_len) {
            Ok(place) => place,
            Err(e) => return Err(e),
        };
        let layers = match load_blocks(w, config.num_hidden_layers) {
            Ok(layers) => layers,
            Err(e) => return Err(e),
        };
        let norm = match load_affine(w, "norm") {
            Ok(a) => a,
            Err(e) => return Err(e),
        };
        match Linear::load(w, "output") {
            Ok(output_projection) => Ok(
                Transformer {
                    config,
                    token_embedding,
                    position_embedding,
                    layers,
                    norm,
                    output_projection,
                },
            ),
            Err(e) => Err(e),
        }
    }
}

/// There is a first layer to run.
pub fn check_layers(layers: usize) -> (r: Result<(), Error>)
    ensures
        match r {
            Ok(_) => layers > 0,
            Err(e) => layers == 0 && (e matches Error::InferenceError(m) && m@
                == "No transformer layers available"@),
        },
{
    if layers == 0 {
        Err(Error::InferenceError("No transformer layers available".to_owned()))
    } else {
        Ok(())
    }
}

/// Where the queries, the keys and the values begin in one projection of all three.
pub fn fused_offsets(hidden: usize) -> (r: (usize, usize, usize))
    requires
        hidden <= usize::MAX / 3,
    ensures
        r == (0usize, hidden, (2 * hidden) as usize),
{
    (0, hidden, 2 * hidden)
}

/// The layers of a model are loaded in the order of their numbers, each from its own tensors.
pub proof fn layers_are_loaded_in_order(w: WeightsView, hidden: usize, count: nat, i: int)
    requires
        fused_layers_of(w, count, hidden) is Ok,
    ensures
        fused_layers_of(w, count, hidden)->Ok_0.len() == count,
        0 <= i < count ==> fused_layer_of(w, "model.h.layers."@ + decimal(i as nat), hidden) == Ok::<FusedLayer, Seq<char>>(fused_layers_of(w, count, hidden)->Ok_0[i]),
    decreases count,
{
    if count > 0 {
        let j: nat = (count - 1) as nat;
        layers_are_loaded_in_order(w, hidden, j, i);
    }
}

/// The blocks of a model are loaded in the order of their numbers, each from its own tensors.
pub proof fn blocks_are_loaded_in_order(w: WeightsView, count: nat, i: int)
    requires
        blocks_of(w, count) is Ok,
    ensures
        blocks_of(w, count)->Ok_0.len() == count,
        0 <= i < count ==> block_of(w, "layers."@ + decimal(i as nat)) == Ok::<TransformerBlock, Seq<char>>(blocks_of(w, count)->Ok_0[i]),
    decreases count,
{
    if count > 0 {
        let j: nat = (count - 1) as nat;
        blocks_are_loaded_in_order(w, j, i);
    }
}

} // verus!
