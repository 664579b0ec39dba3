//! The separate vocoder: which tensors its layers are made of, and which blocks run behind each
//! upsampling.

use crate::convert::{decimals, shape_text};
use crate::models::weights::{
    conv_of, indexed, load_conv, numbered, same_outcome, under, Conv, ConvKind, Weights,
    WeightsView,
};
use crate::strings::{decimal, join};
use crate::Error;
use vstd::prelude::*;

verus! {

/// How many numbers of upsampling layers are looked at.
pub const UPSAMPLE_SLOTS: usize = 6;

/// How many residual blocks there may be.
pub const BLOCK_SLOTS: usize = 18;

/// How many convolutions of a kind a residual block may have.
pub const BLOCK_CONVS: usize = 3;

/// How many activations a residual block has.
pub const BLOCK_ACTIVATIONS: usize = 6;

/// The parameters of an activation that adds a squared sine.
#[derive(Debug, Clone, Copy, PartialEq, Eq, Structural)]
pub struct Snake {
    pub alpha: usize,
    pub beta: usize,
}

/// The parameters of the activation under a prefix.
pub open spec fn snake_of(w: WeightsView, prefix: Seq<char>) -> Result<Snake, Seq<char>> {
    match w.need(prefix + ".act.alpha"@) {
        Err(e) => Err(e),
        Ok(alpha) => match w.need(prefix + ".act.beta"@) {
            Err(e) => Err(e),
            Ok(beta) => Ok(Snake { alpha, beta }),
        },
    }
}

/// The parameters of the activation under a prefix.
fn load_snake(w: &Weights, prefix: &str) -> (r: Result<Snake, String>)
    ensures
        same_outcome(r, snake_of(w@, prefix@)),
{
    let alpha = match w.get(under(prefix, ".act.alpha").as_str()) {
        Ok(place) => place,
        Err(e) => return Err(e),
    };
    match w.get(under(prefix, ".act.beta").as_str()) {
        Ok(beta) => Ok(Snake { alpha, beta }),
        Err(e) => Err(e),
    }
}

/// A residual block: its convolutions, the parameters of its first activation, which all of them
/// use, and the filter of each activation that has one.
pub struct ResidualBlock {
    pub convs1: Vec<Conv>,
    pub convs2: Vec<Conv>,
    pub snake: Snake,
    pub filters: Vec<Option<usize>>,
}

/// A residual block.
pub struct ResidualBlockView {
    pub convs1: Seq<Conv>,
    pub convs2: Seq<Conv>,
    pub snake: Snake,
    pub filters: Seq<Option<usize>>,
}

/// The filters of the activations under a prefix.
pub open spec fn filters_of(w: WeightsView, prefix: Seq<char>) -> Seq<Option<usize>> {
    Seq::new(
        BLOCK_ACTIVATIONS as nat,
        |j: int|
            w.maybe(
                prefix + ".activations."@ + decimal(j as nat) + ".downsample.lowpass.filter"@,
            ),
    )
}

/// A list of convolutions with the one under a prefix behind them, where there is a direction for
/// it.
pub open spec fn with_conv(w: WeightsView, list: Seq<Conv>, prefix: Seq<char>) -> Result<
    Seq<Conv>,
    Seq<char>,
> {
    if w.has(prefix + ".weight_v"@) {
        match conv_of(w, prefix, ConvKind::Normed) {
            Ok(conv) => Ok(list.push(conv)),
            Err(e) => Err(e),
        }
    } else {
        Ok(list)
    }
}

/// The convolutions of a block below a count, those of one number after the other.
pub open spec fn conv_pairs_of(w: WeightsView, prefix: Seq<char>, count: nat) -> Result<
    (Seq<Conv>, Seq<Conv>),
    Seq<char>,
>
    decreases count,
{
    if count == 0 {
        Ok((Seq::empty(), Seq::empty()))
    } else {
        let j = (count - 1) as nat;
        match conv_pairs_of(w, prefix, j) {
            Err(e) => Err(e),
            Ok((first, second)) => match with_conv(w, first, prefix + ".convs1."@ + decimal(j)) {
                Err(e) => Err(e),
                Ok(first) => match with_conv(w, second, prefix + ".convs2."@ + decimal(j)) {
                    Err(e) => Err(e),
                    Ok(second) => Ok((first, second)),
                },
            },
        }
    }
}

proof fn lemma_pairs_fail(w: WeightsView, prefix: Seq<char>, i: nat, count: nat)
    requires
        i <= count,
        conv_pairs_of(w, prefix, i) is Err,
    ensures
        conv_pairs_of(w, prefix, count) == conv_pairs_of(w, prefix, i),
    decreases count,
{
    if i < count {
        lemma_pairs_fail(w, prefix, i, (count - 1) as nat);
    }
}

/// Puts the convolution under a prefix behind a list, where there is a direction for it.
fn add_conv(w: &Weights, list: &mut Vec<Conv>, prefix: &str) -> (r: Result<(), String>)
    ensures
        match r {
            Ok(_) => with_conv(w@, old(list)@, prefix@) == Ok::<Seq<Conv>, Seq<char>>(final(list)@),
            Err(e) => with_conv(w@, old(list)@, prefix@) == Err::<Seq<Conv>, Seq<char>>(e@),
        },
{
    if w.contains(under(prefix, ".weight_v").as_str()) {
        match load_conv(w, prefix, ConvKind::Normed) {
            Ok(conv) => list.push(conv),
            Err(e) => return Err(e),
        }
    }
    Ok(())
}

/// The convolutions of a block.
fn load_pairs(w: &Weights, prefix: &str) -> (r: Result<(Vec<Conv>, Vec<Conv>), String>)
    ensures
        match r {
            Ok(p) => conv_pairs_of(w@, prefix@, BLOCK_CONVS as nat) == Ok::<
                (Seq<Conv>, Seq<Conv>),
                Seq<char>,
            >((p.0@, p.1@)),
            Err(e) => conv_pairs_of(w@, prefix@, BLOCK_CONVS as nat) == Err::<
                (Seq<Conv>, Seq<Conv>),
                Seq<char>,
            >(e@),
        },
{
    let mut convs1: Vec<Conv> = Vec::new();
    let mut convs2: Vec<Conv> = Vec::new();
    let base1 = under(prefix, ".convs1.");
    let base2 = under(prefix, ".convs2.");
    for j in 0..BLOCK_CONVS
        invariant
            base1@ == prefix@ + ".convs1."@,
            base2@ == prefix@ + ".convs2."@,
            conv_pairs_of(w@, prefix@, j as nat) == Ok::<(Seq<Conv>, Seq<Conv>), Seq<char>>(
                (convs1@, convs2@),
            ),
    {
        if let Err(e) = add_conv(w, &mut convs1, indexed(base1.as_str(), j).as_str()) {
            proof {
                lemma_pairs_fail(w@, prefix@, (j + 1) as nat, BLOCK_CONVS as nat);
            }
            return Err(e);
        }
        if let Err(e) = add_conv(w, &mut convs2, indexed(base2.as_str(), j).as_str()) {
            proof {
                lemma_pairs_fail(w@, prefix@, (j + 1) as nat, BLOCK_CONVS as nat);
            }
            return Err(e);
        }
    }
    Ok((convs1, convs2))
}

/// The residual block under a prefix.
pub open spec fn residual_block_of(w: WeightsView, prefix: Seq<char>) -> Result<
    ResidualBlockView,
    Seq<char>,
> {
    match conv_pairs_of(w, prefix, BLOCK_CONVS as nat) {
        Err(e) => Err(e),
        Ok((convs1, convs2)) => match snake_of(w, prefix + ".activations.0"@) {
            Err(e) => Err(e),
            Ok(snake) => Ok(
                ResidualBlockView { convs1, convs2, snake, filters: filters_of(w, prefix) },
            ),
        },
    }
}

impl ResidualBlock {
    /// The parts of the block.
    pub open spec fn view(&self) -> ResidualBlockView {
        ResidualBlockView {
            convs1: self.convs1@,
            convs2: self.convs2@,
            snake: self.snake,
            filters: self.filters@,
        }
    }

    /// The residual block under a prefix, or the first name that is missing.
    pub fn load(w: &Weights, prefix: &str) -> (r: Result<Self, String>)
        ensures
            match r {
                Ok(block) => residual_block_of(w@, prefix@) == Ok::<ResidualBlockView, Seq<char>>(
                    block@,
                ),
                Err(e) => residual_block_of(w@, prefix@) == Err::<ResidualBlockView, Seq<char>>(e@),
            },
    {
        let (convs1, convs2) = match load_pairs(w, prefix) {
            Ok(pair) => pair,
            Err(e) => return Err(e),
        };
        let snake = match load_snake(w, under(prefix, ".activations.0").as_str()) {
            Ok(s) => s,
            Err(e) => return Err(e),
        };
        let base = under(prefix, ".activations.");
        let mut filters: Vec<Option<usize>> = Vec::new();
        for j in 0..BLOCK_ACTIVATIONS
            invariant
                base@ == prefix@ + ".activations."@,
                filters@ == filters_of(w@, prefix@).take(j as int),
        {
            filters.push(
                w.get_optional(numbered(base.as_str(), j, ".downsample.lowpass.filter").as_str()),
            );
            assert(filters@ =~= filters_of(w@, prefix@).take(j + 1));
        }
        assert(filters_of(w@, prefix@).take(BLOCK_ACTIVATIONS as int) =~= filters_of(w@, prefix@));
        Ok(ResidualBlock { convs1, convs2, snake, filters })
    }
}

/// The residual blocks below a count: each that has a first convolution.
pub open spec fn residual_blocks_of(w: WeightsView, count: nat) -> Result<
    Seq<ResidualBlockView>,
    Seq<char>,
>
    decreases count,
{
    if count == 0 {
        Ok(Seq::empty())
    } else {
        let i = (count - 1) as nat;
        match residual_blocks_of(w, i) {
            Err(e) => Err(e),
            Ok(before) => if w.has("resblocks."@ + decimal(i) + ".convs1.0.weight_v"@) {
                match residual_block_of(w, "resblocks."@ + decimal(i)) {
                    Ok(block) => Ok(before.push(block)),
                    Err(e) => Err(e),
                }
            } else {
                Ok(before)
            },
        }
    }
}

proof fn lemma_blocks_fail(w: WeightsView, i: nat, count: nat)
    requires
        i <= count,
        residual_blocks_of(w, i) is Err,
    ensures
        residual_blocks_of(w, count) == residual_blocks_of(w, i),
    decreases count,
{
    if i < count {
        lemma_blocks_fail(w, i, (count - 1) as nat);
    }
}

/// Blocks by their views.
pub open spec fn block_views(blocks: Seq<ResidualBlock>) -> Seq<ResidualBlockView> {
    blocks.map_values(|b: ResidualBlock| b@)
}

/// The residual blocks.
fn load_blocks(w: &Weights) -> (r: Result<Vec<ResidualBlock>, String>)
    ensures
        match r {
            Ok(list) => residual_blocks_of(w@, BLOCK_SLOTS as nat) == Ok::<
                Seq<ResidualBlockView>,
                Seq<char>,
            >(block_views(list@)),
            Err(e) => residual_blocks_of(w@, BLOCK_SLOTS as nat) == Err::<
                Seq<ResidualBlockView>,
                Seq<char>,
            >(e@),
        },
{
    let mut blocks: Vec<ResidualBlock> = Vec::new();
    assert(block_views(blocks@) =~= Seq::empty());
    for i in 0..BLOCK_SLOTS
        invariant
            residual_blocks_of(w@, i as nat) == Ok::<Seq<ResidualBlockView>, Seq<char>>(
                block_views(blocks@),
            ),
    {
        if w.contains(numbered("resblocks.", i, ".convs1.0.weight_v").as_str()) {
            match ResidualBlock::load(w, indexed("resblocks.", i).as_str()) {
                Ok(block) => {
                    let ghost before = blocks@;
                    let ghost added = block@;
                    blocks.push(block);
                    assert(block_views(blocks@) =~= block_views(before).push(added));
                },
                Err(e) => {
                    proof {
                        lemma_blocks_fail(w@, (i + 1) as nat, BLOCK_SLOTS as nat);
                    }
                    return Err(e);
                },
            }
        }
    }
    Ok(blocks)
}

/// The upsampling layers below a count: each for which there is a direction.
pub open spec fn ups_of(w: WeightsView, count: nat) -> Result<Seq<Conv>, Seq<char>>
    decreases count,
{
    if count == 0 {
        Ok(Seq::empty())
    } else {
        let i = (count - 1) as nat;
        match ups_of(w, i) {
            Err(e) => Err(e),
            Ok(before) => if w.has("ups."@ + decimal(i) + ".0.weight_v"@) {
                match conv_of(w, "ups."@ + decimal(i) + ".0"@, ConvKind::Normed) {
                    Ok(conv) => Ok(before.push(conv)),
                    Err(e) => Err(e),
                }
            } else {
                Ok(before)
            },
        }
    }
}

proof fn lemma_ups_fail(w: WeightsView, i: nat, count: nat)
    requires
        i <= count,
        ups_of(w, i) is Err,
    ensures
        ups_of(w, count) == ups_of(w, i),
    decreases count,
{
    if i < count {
        lemma_ups_fail(w, i, (count - 1) as nat);
    }
}

/// The upsampling layers.
fn load_ups(w: &Weights) -> (r: Result<Vec<Conv>, String>)
    ensures
        match r {
            Ok(list) => ups_of(w@, UPSAMPLE_SLOTS as nat) == Ok::<Seq<Conv>, Seq<char>>(list@),
            Err(e) => ups_of(w@, UPSAMPLE_SLOTS as nat) == Err::<Seq<Conv>, Seq<char>>(e@),
        },
{
    let mut ups: Vec<Conv> = Vec::new();
    for i in 0..UPSAMPLE_SLOTS
        invariant
            ups_of(w@, i as nat) == Ok::<Seq<Conv>, Seq<char>>(ups@),
    {
        if w.contains(numbered("ups.", i, ".0.weight_v").as_str()) {
            match load_conv(w, numbered("ups.", i, ".0").as_str(), ConvKind::Normed) {
                Ok(conv) => ups.push(conv),
                Err(e) => {
                    proof {
                        lemma_ups_fail(w@, (i + 1) as nat, UPSAMPLE_SLOTS as nat);
                    }
                    return Err(e);
                },
            }
        }
    }
    Ok(ups)
}

/// The activation behind the last convolution.
#[derive(Debug, Clone, Copy, PartialEq, Eq, Structural)]
pub struct PostActivation {
    pub snake: Snake,
    pub downsample: Option<usize>,
    pub upsample: Option<usize>,
}

/// The vocoder.
pub struct BigVGAN {
    pub conv_pre: Conv,
    pub ups: Vec<Conv>,
    pub resblocks: Vec<ResidualBlock>,
    pub conv_post: Conv,
    pub activation_post: PostActivation,
}

/// The vocoder.
pub struct BigVganView {
    pub conv_pre: Conv,
    pub ups: Seq<Conv>,
    pub resblocks: Seq<ResidualBlockView>,
    pub conv_post: Conv,
    pub activation_post: PostActivation,
}

/// The activation behind the last convolution.
pub open spec fn post_of(w: WeightsView) -> Result<PostActivation, Seq<char>> {
    match snake_of(w, "activation_post"@) {
        Err(e) => Err(e),
        Ok(snake) => Ok(
            PostActivation {
                snake,
                downsample: w.maybe("activation_post.downsample.lowpass.filter"@),
                upsample: w.maybe("activation_post.upsample.filter"@),
            },
        ),
    }
}

/// The vocoder of a model file.
pub open spec fn bigvgan_of(w: WeightsView) -> Result<BigVganView, Seq<char>> {
    match conv_of(w, "conv_pre"@, ConvKind::Normed) {
        Err(e) => Err(e),
        Ok(conv_pre) => match ups_of(w, UPSAMPLE_SLOTS as nat) {
            Err(e) => Err(e),
            Ok(ups) => match residual_blocks_of(w, BLOCK_SLOTS as nat) {
                Err(e) => Err(e),
                Ok(resblocks) => match conv_of(w, "conv_post"@, ConvKind::Normed) {
                    Err(e) => Err(e),
                    Ok(conv_post) => match post_of(w) {
                        Err(e) => Err(e),
                        Ok(activation_post) => Ok(
                            BigVganView { conv_pre, ups, resblocks, conv_post, activation_post },
                        ),
                    },
                },
            },
        },
    }
}

impl BigVGAN {
    /// The parts of the vocoder.
    pub open spec fn view(&self) -> BigVganView {
        BigVganView {
            conv_pre: self.conv_pre,
            ups: self.ups@,
            resblocks: block_views(self.resblocks@),
            conv_post: self.conv_post,
            activation_post: self.activation_post,
        }
    }

    /// The vocoder of a model file, or the first name that is missing.
    pub fn load(w: &Weights) -> (r: Result<Self, String>)
        ensures
            match r {
                Ok(v) => bigvgan_of(w@) == Ok::<BigVganView, Seq<char>>(v@),
                Err(e) => bigvgan_of(w@) == Err::<BigVganView, Seq<char>>(e@),
            },
    {
        let conv_pre = match load_conv(w, "conv_pre", ConvKind::Normed) {
            Ok(conv) => conv,
            Err(e) => return Err(e),
        };
        let ups = match load_ups(w) {
            Ok(list) => list,
            Err(e) => return Err(e),
        };
        let resblocks = match load_blocks(w) {
            Ok(list) => list,
            Err(e) => return Err(e),
        };
        let conv_post = match load_conv(w, "conv_post", ConvKind::Normed) {
            Ok(conv) => conv,
            Err(e) => return Err(e),
        };
        let snake = match load_snake(w, "activation_post") {
            Ok(s) => s,
            Err(e) => return Err(e),
        };
        let activation_post = PostActivation {
            snake,
            downsample: w.get_optional("activation_post.downsample.lowpass.filter"),
            upsample: w.get_optional("activation_post.upsample.filter"),
        };
        Ok(BigVGAN { conv_pre, ups, resblocks, conv_post, activation_post })
    }
}

/// A spectrogram has three dimensions.
pub fn check_spectrogram(dims: &Vec<usize>) -> (r: Result<(), Error>)
    ensures
        match r {
            Ok(_) => dims@.len() == 3,
            Err(e) => dims@.len() != 3 && (e matches Error::InferenceError(m) && m@
                == "Expected 3D mel spectrogram [batch, n_mels, time], got "@ + ("["@ + join(
                decimals(dims@),
                ", "@,
            ) + "]"@)),
        },
{
    if dims.len() == 3 {
        Ok(())
    } else {
        let mut m = "Expected 3D mel spectrogram [batch, n_mels, time], got ".to_owned();
        m.push_str(shape_text(dims).as_str());
        Err(Error::InferenceError(m))
    }
}

/// How the parameters of an activation are shaped for an input: one for each channel, the first
/// one for all, or as they are.
#[derive(Debug, Clone, Copy, PartialEq, Eq, Structural)]
pub enum SnakeShape {
    PerChannel,
    Single,
    AsIs,
}

/// How the parameters of an activation are shaped for an input.
pub fn snake_shape(x: &Vec<usize>, alpha: &Vec<usize>) -> (r: SnakeShape)
    ensures
        r == if x@.len() != 3 {
            SnakeShape::Single
        } else if alpha@.len() != 1 {
            SnakeShape::AsIs
        } else if alpha@[0] == x@[1] {
            SnakeShape::PerChannel
        } else {
            SnakeShape::Single
        },
{
    if x.len() != 3 {
        SnakeShape::Single
    } else if alpha.len() != 1 {
        SnakeShape::AsIs
    } else if alpha[0] == x[1] {
        SnakeShape::PerChannel
    } else {
        SnakeShape::Single
    }
}

/// The zeros before and behind a signal that is filtered without a change of its length.
pub fn filter_padding(filter_len: usize) -> (r: (usize, usize))
    requires
        filter_len >= 1,
    ensures
        r.0 == filter_len / 2,
        r.0 + r.1 == filter_len - 1,
{
    let left: usize = filter_len / 2;
    (left, filter_len - 1 - left)
}

/// Where every block is there, the blocks are loaded in the order of their numbers, each from its
/// own tensors.
pub proof fn blocks_are_loaded_in_order(w: WeightsView, count: nat, i: int)
    requires
        residual_blocks_of(w, count) is Ok,
        forall|j: nat| j < count ==> w.has("resblocks."@ + #[trigger] decimal(j) + ".convs1.0.weight_v"@),
    ensures
        residual_blocks_of(w, count)->Ok_0.len() == count,
        0 <= i < count ==> residual_block_of(w, "resblocks."@ + decimal(i as nat)) == Ok::<ResidualBlockView, Seq<char>>(residual_blocks_of(w, count)->Ok_0[i]),
    decreases count,
{
    if count > 0 {
        let j: nat = (count - 1) as nat;
        assert(w.has("resblocks."@ + decimal(j) + ".convs1.0.weight_v"@));
        blocks_are_loaded_in_order(w, j, i);
    }
}

/// Where every upsampling layer is there, they are loaded in the order of their numbers, each from
/// its own tensors.
pub proof fn upsampling_is_loaded_in_order(w: WeightsView, count: nat, i: int)
    requires
        ups_of(w, count) is Ok,
        forall|j: nat| j < count ==> w.has("ups."@ + #[trigger] decimal(j) + ".0.weight_v"@),
    ensures
        ups_of(w, count)->Ok_0.len() == count,
        0 <= i < count ==> conv_of(w, "ups."@ + decimal(i as nat) + ".0"@, ConvKind::Normed) == Ok::<Conv, Seq<char>>(ups_of(w, count)->Ok_0[i]),
    decreases count,
{
    if count > 0 {
        let j: nat = (count - 1) as nat;
        assert(w.has("ups."@ + decimal(j) + ".0.weight_v"@));
        upsampling_is_loaded_in_order(w, j, i);
    }
}

} // verus!
