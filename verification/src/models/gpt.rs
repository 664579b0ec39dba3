//! The model that predicts semantic tokens: which tensors it is made of, and which of its
//! features are used.

use crate::convert::{rest_of, strip_prefix};
use crate::models::mrte::{sized_fusion_of, MRTE};
use crate::models::transformer::{
    fused_layers_of, load_fused_layers, FusedLayer, TransformerConfig,
};
use crate::models::weights::{affine_of, load_affine, same_outcome, Affine, Weights, WeightsView};
use crate::strings::{chars_of, matches_at, occurs_at};
use vstd::prelude::*;

verus! {

/// How many heads the attention has.
pub const GPT_HEADS: usize = 16;

/// How many places a sequence may have.
pub const GPT_MAX_SEQ: usize = 2048;

/// Whether a text occurs in another.
pub open spec fn occurs(s: Seq<char>, part: Seq<char>) -> bool {
    exists|i: int| #[trigger] occurs_at(s, part, i)
}

/// Whether a name is that of the projection of a layer.
pub open spec fn names_layer(name: Seq<char>) -> bool {
    rest_of(name, "model.h.layers."@) is Some && occurs(name, ".self_attn.in_proj_weight"@)
}

/// How many names are those of projections of layers.
pub open spec fn layer_count(names: Seq<Seq<char>>) -> nat
    decreases names.len(),
{
    if names.len() == 0 {
        0
    } else {
        layer_count(names.drop_last()) + (if names_layer(names.last()) {
            1nat
        } else {
            0nat
        })
    }
}

/// Whether a text occurs in another.
fn contains_text(s: &str, part: &str) -> (r: bool)
    ensures
        r == occurs(s@, part@),
{
    let chars = chars_of(s);
    let pattern = chars_of(part);
    let n: usize = chars.len();
    let mut i: usize = 0;
    while i < n
        invariant
            i <= n,
            n == chars@.len(),
            chars@ == s@,
            pattern@ == part@,
            forall|k: int| 0 <= k < i ==> !#[trigger] occurs_at(s@, part@, k),
        decreases n - i,
    {
        if matches_at(chars.as_slice(), pattern.as_slice(), i) {
            return true;
        }
        i = i + 1;
    }
    matches_at(chars.as_slice(), pattern.as_slice(), n)
}

/// How many layers a model file has.
pub fn count_layers(w: &Weights) -> (r: usize)
    ensures
        r == layer_count(w@.names),
{
    let mut n: usize = 0;
    let total: usize = w.len();
    for i in 0..total
        invariant
            total == w@.names.len(),
            n == layer_count(w@.names.take(i as int)),
            n <= i,
    {
        assert(w@.names.take(i + 1).drop_last() =~= w@.names.take(i as int));
        assert(w@.names.take(i + 1).last() == w@.names[i as int]);
        let name = w.name(i);
        if strip_prefix(name, "model.h.layers.").is_some() && contains_text(
            name,
            ".self_attn.in_proj_weight",
        ) {
            n = n + 1;
        }
    }
    assert(w@.names.take(w@.names.len() as int) =~= w@.names);
    n
}

/// The model by the places of its tensors.
pub struct GptPlan {
    pub text_embedding: usize,
    pub audio_embedding: usize,
    pub bert_proj: Option<Affine>,
    pub hubert_proj: Option<Affine>,
    /// The fusion of content and text, where there is one.
    pub mrte: Option<MRTE>,
    pub config: TransformerConfig,
    pub layers: Vec<FusedLayer>,
    pub text_pos_alpha: Option<usize>,
    pub audio_pos_alpha: Option<usize>,
    pub ar_predict_layer: usize,
}

/// The model by the places of its tensors.
pub struct GptPlanView {
    pub text_embedding: usize,
    pub audio_embedding: usize,
    pub bert_proj: Option<Affine>,
    pub hubert_proj: Option<Affine>,
    pub mrte: Option<MRTE>,
    pub config: TransformerConfig,
    pub layers: Seq<FusedLayer>,
    pub text_pos_alpha: Option<usize>,
    pub audio_pos_alpha: Option<usize>,
    pub ar_predict_layer: usize,
}

/// The channels of the content that is fused with text.
pub const FUSION_CONTENT: usize = 768;

/// The channels of a fusion.
pub const FUSION_HIDDEN: usize = 512;

/// How many heads the attention of a fusion has.
pub const SIZED_HEADS: usize = 8;

/// The fusion of content and text: only where all its tensors are there in their shapes.
pub open spec fn optional_fusion(w: WeightsView) -> Option<MRTE> {
    match sized_fusion_of(
        w,
        "model.mrte"@,
        FUSION_CONTENT,
        FUSION_HIDDEN,
        FUSION_HIDDEN,
        SIZED_HEADS,
    ) {
        Ok(mrte) => Some(mrte),
        Err(_) => None,
    }
}

/// A projection under a prefix, where there is a weight for it.
pub open spec fn optional_projection(w: WeightsView, prefix: Seq<char>) -> Result<
    Option<Affine>,
    Seq<char>,
> {
    if w.has(prefix + ".weight"@) {
        match affine_of(w, prefix) {
            Ok(a) => Ok(Some(a)),
            Err(e) => Err(e),
        }
    } else {
        Ok(None)
    }
}

/// The embeddings and the projections of features.
pub open spec fn front_of(w: WeightsView) -> Result<
    (usize, usize, Option<Affine>, Option<Affine>),
    Seq<char>,
> {
    match w.need("model.ar_text_embedding.word_embeddings.weight"@) {
        Err(e) => Err(e),
        Ok(text) => match w.need("model.ar_audio_embedding.word_embeddings.weight"@) {
            Err(e) => Err(e),
            Ok(audio) => match optional_projection(w, "model.bert_proj"@) {
                Err(e) => Err(e),
                Ok(bert) => match optional_projection(w, "model.hubert_proj"@) {
                    Err(e) => Err(e),
                    Ok(hubert) => Ok((text, audio, bert, hubert)),
                },
            },
        },
    }
}

/// The sizes of the model: from the shapes of the text embedding and of the first layer, and the
/// number of layers. A tensor without the dimensions that are counted is refused like a missing
/// one.
pub open spec fn config_of(w: WeightsView, text_embedding: usize) -> Result<
    TransformerConfig,
    Seq<char>,
> {
    match w.need("model.h.layers.0.linear1.weight"@) {
        Err(e) => Err(e),
        Ok(linear1) => match (
            w.dimension(text_embedding, 0),
            w.dimension(text_embedding, 1),
            w.dimension(linear1, 0),
        ) {
            (Some(vocab_size), Some(hidden_size), Some(intermediate_size)) => Ok(
                TransformerConfig {
                    vocab_size,
                    hidden_size,
                    intermediate_size,
                    num_hidden_layers: layer_count(w.names) as usize,
                    num_attention_heads: GPT_HEADS,
                    max_seq_len: GPT_MAX_SEQ,
                },
            ),
            _ => Err("model.ar_text_embedding.word_embeddings.weight"@),
        },
    }
}

/// The model of a model file.
pub open spec fn gpt_of(w: WeightsView) -> Result<GptPlanView, Seq<char>> {
    match front_of(w) {
        Err(e) => Err(e),
        Ok((text_embedding, audio_embedding, bert_proj, hubert_proj)) => match config_of(
            w,
            text_embedding,
        ) {
            Err(e) => Err(e),
            Ok(config) => match fused_layers_of(w, layer_count(w.names), config.hidden_size) {
                Err(e) => Err(e),
                Ok(layers) => match w.need("model.ar_predict_layer.weight"@) {
                    Err(e) => Err(e),
                    Ok(ar_predict_layer) => Ok(
                        GptPlanView {
                            text_embedding,
                            audio_embedding,
                            bert_proj,
                            hubert_proj,
                            mrte: optional_fusion(w),
                            config,
                            layers,
                            text_pos_alpha: w.maybe("model.ar_text_position.alpha"@),
                            audio_pos_alpha: w.maybe("model.ar_audio_position.alpha"@),
                            ar_predict_layer,
                        },
                    ),
                },
            },
        },
    }
}

/// A projection under a prefix, where there is a weight for it.
fn load_projection(w: &Weights, prefix: &str) -> (r: Result<Option<Affine>, String>)
    ensures
        same_outcome(r, optional_projection(w@, prefix@)),
{
    let mut key = prefix.to_owned();
    key.push_str(".weight");
    if !w.contains(key.as_str()) {
        return Ok(None);
    }
    match load_affine(w, prefix) {
        Ok(a) => Ok(Some(a)),
        Err(e) => Err(e),
    }
}

/// The embeddings and the projections of features.
fn load_front(w: &Weights) -> (r: Result<(usize, usize, Option<Affine>, Option<Affine>), String>)
    ensures
        same_outcome(r, front_of(w@)),
{
    let text = match w.get("model.ar_text_embedding.word_embeddings.weight") {
        Ok(place) => place,
        Err(e) => return Err(e),
    };
    let audio = match w.get("model.ar_audio_embedding.word_embeddings.weight") {
        Ok(place) => place,
        Err(e) => return Err(e),
    };
    let bert = match load_projection(w, "model.bert_proj") {
        Ok(a) => a,
        Err(e) => return Err(e),
    };
    match load_projection(w, "model.hubert_proj") {
        Ok(hubert) => Ok((text, audio, bert, hubert)),
        Err(e) => Err(e),
    }
}

/// The sizes of the model.
fn load_config(w: &Weights, text_embedding: usize) -> (r: Result<TransformerConfig, String>)
    ensures
        same_outcome(r, config_of(w@, text_embedding)),
{
    let linear1 = match w.get("model.h.layers.0.linear1.weight") {
        Ok(place) => place,
        Err(e) => return Err(e),
    };
    let num_hidden_layers = count_layers(w);
    match (w.dim(text_embedding, 0), w.dim(text_embedding, 1), w.dim(linear1, 0)) {
        (Some(vocab_size), Some(hidden_size), Some(intermediate_size)) => Ok(
            TransformerConfig {
                vocab_size,
                hidden_size,
                intermediate_size,
                num_hidden_layers,
                num_attention_heads: GPT_HEADS,
                max_seq_len: GPT_MAX_SEQ,
            },
        ),
        _ => Err("model.ar_text_embedding.word_embeddings.weight".to_owned()),
    }
}

impl GptPlan {
    /// The parts of the model.
    pub open spec fn view(&self) -> GptPlanView {
        GptPlanView {
            text_embedding: self.text_embedding,
            audio_embedding: self.audio_embedding,
            bert_proj: self.bert_proj,
            hubert_proj: self.hubert_proj,
            mrte: self.mrte,
            config: self.config,
            layers: self.layers@,
            text_pos_alpha: self.text_pos_alpha,
            audio_pos_alpha: self.audio_pos_alpha,
            ar_predict_layer: self.ar_predict_layer,
        }
    }

    /// The model of a model file, or the first name that is missing.
    pub fn load(w: &Weights) -> (r: Result<Self, String>)
        ensures
            match r {
                Ok(plan) => gpt_of(w@) == Ok::<GptPlanView, Seq<char>>(plan@),
                Err(e) => gpt_of(w@) == Err::<GptPlanView, Seq<char>>(e@),
            },
    {
        let (text_embedding, audio_embedding, bert_proj, hubert_proj) = match load_front(w) {
            Ok(front) => front,
            Err(e) => return Err(e),
        };
        let mrte = match MRTE::new(
            FUSION_CONTENT,
            FUSION_HIDDEN,
            FUSION_HIDDEN,
            SIZED_HEADS,
            w,
            "model.mrte",
        ) {
            Ok(mrte) => Some(mrte),
            Err(_) => None,
        };
        let config = match load_config(w, text_embedding) {
            Ok(config) => config,
            Err(e) => return Err(e),
        };
        let layers = match load_fused_layers(w, count_layers(w), config.hidden_size) {
            Ok(layers) => layers,
            Err(e) => return Err(e),
        };
        let text_pos_alpha = w.get_optional("model.ar_text_position.alpha");
        let audio_pos_alpha = w.get_optional("model.ar_audio_position.alpha");
        match w.get("model.ar_predict_layer.weight") {
            Ok(ar_predict_layer) => Ok(
                GptPlan {
                    text_embedding,
                    audio_embedding,
                    bert_proj,
                    hubert_proj,
                    mrte,
                    config,
                    layers,
                    text_pos_alpha,
                    audio_pos_alpha,
                    ar_predict_layer,
                },
            ),
            Err(e) => Err(e),
        }
    }
}

/// The width of text features.
pub const BERT_WIDTH: usize = 1024;

/// The width of content features.
pub const HUBERT_WIDTH: usize = 768;

/// How features are taken into a projection.
#[derive(Debug, Clone, Copy, PartialEq, Eq, Structural)]
pub enum FeatureLayout {
    /// Frame by frame, as they are.
    Frames,
    /// Channel by channel: frames and channels change places first.
    Channels,
    /// Not at all: they have another width.
    Other,
}

/// How features of a shape are taken into a projection of a width: channel by channel where the
/// second of three dimensions is the width, else frame by frame where the last one is.
pub fn bert_layout(dims: &Vec<usize>) -> (r: FeatureLayout)
    ensures
        r == if dims@.len() == 3 && dims@[1] == BERT_WIDTH {
            FeatureLayout::Channels
        } else if dims@.len() > 0 && dims@.last() == BERT_WIDTH {
            FeatureLayout::Frames
        } else {
            FeatureLayout::Other
        },
{
    if dims.len() == 3 && dims[1] == BERT_WIDTH {
        FeatureLayout::Channels
    } else if dims.len() > 0 && dims[dims.len() - 1] == BERT_WIDTH {
        FeatureLayout::Frames
    } else {
        FeatureLayout::Other
    }
}

/// How content features of a shape are taken into a projection: only where the last of at least
/// two dimensions is the width, and channel by channel where the second of three is, too.
pub fn hubert_layout(dims: &Vec<usize>) -> (r: FeatureLayout)
    ensures
        r == if dims@.len() < 2 || dims@.last() != HUBERT_WIDTH {
            FeatureLayout::Other
        } else if dims@.len() == 3 && dims@[1] == HUBERT_WIDTH {
            FeatureLayout::Channels
        } else {
            FeatureLayout::Frames
        },
{
    if dims.len() < 2 || dims[dims.len() - 1] != HUBERT_WIDTH {
        FeatureLayout::Other
    } else if dims.len() == 3 && dims[1] == HUBERT_WIDTH {
        FeatureLayout::Channels
    } else {
        FeatureLayout::Frames
    }
}

/// Whether projected text features are added to the embeddings of a sequence: only where there is
/// a frame for each place and their widths agree.
pub fn adds_bert(frames: usize, width: usize, seq_len: usize, hidden: usize) -> (r: bool)
    ensures
        r == (frames >= seq_len && width == hidden),
{
    frames >= seq_len && width == hidden
}

/// Whether projected content features are added to the embeddings of a sequence: wherever there
/// is a frame and their widths agree; the last frame fills up.
pub fn adds_hubert(frames: usize, width: usize, hidden: usize) -> (r: bool)
    ensures
        r == (frames > 0 && width == hidden),
{
    frames > 0 && width == hidden
}

/// A name counts as a layer where it begins like one and names a projection, and names are
/// counted one by one.
pub proof fn layers_are_counted_one_by_one(names: Seq<Seq<char>>, number: Seq<char>, name: Seq<char>)
    ensures
        layer_count(names.push(name)) == layer_count(names) + if names_layer(name) {
            1nat
        } else {
            0nat
        },
        layer_count(Seq::empty()) == 0,
        names_layer("model.h.layers."@ + number + ".self_attn.in_proj_weight"@),
{
    assert(names.push(name).drop_last() =~= names);
    let front = "model.h.layers."@;
    let back = ".self_attn.in_proj_weight"@;
    let whole = front + number + back;
    assert(whole.subrange(0, front.len() as int) =~= front);
    assert(whole.subrange((front.len() + number.len()) as int, whole.len() as int) =~= back);
    assert(occurs_at(whole, back, (front.len() + number.len()) as int));
}

} // verus!
