//! The vocoder of a SoVITS model: which tensors its layers are made of, and which blocks run
//! behind each upsampling.

use crate::models::weights::{
    conv_of, convs_of, indexed, load_conv, load_convs, numbered, same_list, under, Conv, ConvKind,
    Weights, WeightsView,
};
use crate::strings::decimal;
use vstd::prelude::*;

verus! {

/// A residual block.
pub struct ResBlock1 {
    pub convs1: Vec<Conv>,
    pub convs2: Vec<Conv>,
}

/// A residual block.
pub struct ResBlockView {
    pub convs1: Seq<Conv>,
    pub convs2: Seq<Conv>,
}

/// How many convolutions of a kind a residual block may have.
pub const BLOCK_CONVS: usize = 3;

/// The residual block under a prefix.
pub open spec fn block_of(w: WeightsView, prefix: Seq<char>) -> Result<ResBlockView, Seq<char>> {
    match convs_of(w, prefix + ".convs1."@, BLOCK_CONVS as nat, ConvKind::Dilated) {
        Err(e) => Err(e),
        Ok(convs1) => match convs_of(
            w,
            prefix + ".convs2."@,
            BLOCK_CONVS as nat,
            ConvKind::Dilated,
        ) {
            Err(e) => Err(e),
            Ok(convs2) => Ok(ResBlockView { convs1, convs2 }),
        },
    }
}

impl ResBlock1 {
    /// The convolutions of the block.
    pub open spec fn view(&self) -> ResBlockView {
        ResBlockView { convs1: self.convs1@, convs2: self.convs2@ }
    }

    /// The residual block under a prefix, or the first name that is missing.
    pub fn load(w: &Weights, prefix: &str) -> (r: Result<Self, String>)
        ensures
            match r {
                Ok(block) => block_of(w@, prefix@) == Ok::<ResBlockView, Seq<char>>(block@),
                Err(e) => block_of(w@, prefix@) == Err::<ResBlockView, Seq<char>>(e@),
            },
    {
        let convs1 = match load_convs(
            w,
            under(prefix, ".convs1.").as_str(),
            BLOCK_CONVS,
            ConvKind::Dilated,
        ) {
            Ok(list) => list,
            Err(e) => return Err(e),
        };
        match load_convs(w, under(prefix, ".convs2.").as_str(), BLOCK_CONVS, ConvKind::Dilated) {
            Ok(convs2) => Ok(ResBlock1 { convs1, convs2 }),
            Err(e) => Err(e),
        }
    }
}

/// An upsampling layer.
#[derive(Debug, Clone, Copy, PartialEq, Eq, Structural)]
pub struct Upsample {
    pub conv: Conv,
    pub upsample_factor: usize,
}

/// The factor of an upsampling layer by its place among those that there are.
pub open spec fn upsample_rate(place: int) -> usize {
    if place == 0 {
        10
    } else if place == 1 {
        8
    } else {
        2
    }
}

/// How many numbers of upsampling layers are looked at.
pub const UPSAMPLE_SLOTS: usize = 10;

/// How many residual blocks there may be.
pub const BLOCK_SLOTS: usize = 15;

/// How many residual blocks run behind each upsampling.
pub const BLOCKS_PER_STAGE: usize = 3;

/// The channels of the condition where the model does not say.
pub const DEFAULT_CONDITION: usize = 512;

/// The upsampling layers below a count: each for which there is a direction.
pub open spec fn upsamples_of(w: WeightsView, count: nat) -> Result<Seq<Upsample>, Seq<char>>
    decreases count,
{
    if count == 0 {
        Ok(Seq::empty())
    } else {
        let i = (count - 1) as nat;
        match upsamples_of(w, i) {
            Err(e) => Err(e),
            Ok(before) => if w.has("dec.ups."@ + decimal(i) + ".weight_v"@) {
                match conv_of(w, "dec.ups."@ + decimal(i), ConvKind::ByGain) {
                    Ok(conv) => Ok(
                        before.push(
                            Upsample { conv, upsample_factor: upsample_rate(before.len() as int) },
                        ),
                    ),
                    Err(e) => Err(e),
                }
            } else {
                Ok(before)
            },
        }
    }
}

/// The residual blocks below a count: each that has a first convolution.
pub open spec fn blocks_of(w: WeightsView, count: nat) -> Result<Seq<ResBlockView>, Seq<char>>
    decreases count,
{
    if count == 0 {
        Ok(Seq::empty())
    } else {
        let i = (count - 1) as nat;
        match blocks_of(w, i) {
            Err(e) => Err(e),
            Ok(before) => if w.has("dec.resblocks."@ + decimal(i) + ".convs1.0.weight_v"@) {
                match block_of(w, "dec.resblocks."@ + decimal(i)) {
                    Ok(block) => Ok(before.push(block)),
                    Err(e) => Err(e),
                }
            } else {
                Ok(before)
            },
        }
    }
}

/// The vocoder.
pub struct Decoder {
    pub conv_pre: Conv,
    pub ups: Vec<Upsample>,
    pub resblocks: Vec<ResBlock1>,
    pub conv_post: Conv,
    pub cond: Option<Conv>,
    pub gin_channels: usize,
}

/// The vocoder.
pub struct DecoderView {
    pub conv_pre: Conv,
    pub ups: Seq<Upsample>,
    pub resblocks: Seq<ResBlockView>,
    pub conv_post: Conv,
    pub cond: Option<Conv>,
    pub gin_channels: usize,
}

/// The convolution of the condition, if there is one.
pub open spec fn cond_of(w: WeightsView) -> Result<Option<Conv>, Seq<char>> {
    if w.has("dec.cond.weight_v"@) {
        match conv_of(w, "dec.cond"@, ConvKind::ByGain) {
            Ok(conv) => Ok(Some(conv)),
            Err(e) => Err(e),
        }
    } else {
        Ok(None)
    }
}

/// The channels of the condition: the first dimension of its weight, where there is one.
pub open spec fn condition_channels(w: WeightsView, cond: Option<Conv>) -> usize {
    match cond {
        Some(conv) => match w.dimension(conv.weight, 0) {
            Some(channels) => channels,
            None => DEFAULT_CONDITION,
        },
        None => DEFAULT_CONDITION,
    }
}

/// The vocoder of a model file.
pub open spec fn decoder_of(w: WeightsView) -> Result<DecoderView, Seq<char>> {
    match conv_of(w, "dec.conv_pre"@, ConvKind::ByGain) {
        Err(e) => Err(e),
        Ok(conv_pre) => match conv_of(w, "dec.conv_post"@, ConvKind::Plain) {
            Err(e) => Err(e),
            Ok(conv_post) => match cond_of(w) {
                Err(e) => Err(e),
                Ok(cond) => match upsamples_of(w, UPSAMPLE_SLOTS as nat) {
                    Err(e) => Err(e),
                    Ok(ups) => match blocks_of(w, BLOCK_SLOTS as nat) {
                        Err(e) => Err(e),
                        Ok(resblocks) => Ok(
                            DecoderView {
                                conv_pre,
                                ups,
                                resblocks,
                                conv_post,
                                cond,
                                gin_channels: condition_channels(w, cond),
                            },
                        ),
                    },
                },
            },
        },
    }
}

proof fn lemma_upsamples_fail(w: WeightsView, i: nat, count: nat)
    requires
        i <= count,
        upsamples_of(w, i) is Err,
    ensures
        upsamples_of(w, count) == upsamples_of(w, i),
    decreases count,
{
    if i < count {
        lemma_upsamples_fail(w, i, (count - 1) as nat);
    }
}

proof fn lemma_blocks_fail(w: WeightsView, i: nat, count: nat)
    requires
        i <= count,
        blocks_of(w, i) is Err,
    ensures
        blocks_of(w, count) == blocks_of(w, i),
    decreases count,
{
    if i < count {
        lemma_blocks_fail(w, i, (count - 1) as nat);
    }
}

/// The upsampling layers.
fn load_upsamples(w: &Weights) -> (r: Result<Vec<Upsample>, String>)
    ensures
        same_list(r, upsamples_of(w@, UPSAMPLE_SLOTS as nat)),
{
    let mut ups: Vec<Upsample> = Vec::new();
    for i in 0..UPSAMPLE_SLOTS
        invariant
            upsamples_of(w@, i as nat) == Ok::<Seq<Upsample>, Seq<char>>(ups@),
    {
        if w.contains(numbered("dec.ups.", i, ".weight_v").as_str()) {
            match load_conv(w, indexed("dec.ups.", i).as_str(), ConvKind::ByGain) {
                Ok(conv) => {
                    let upsample_factor: usize = if ups.len() == 0 {
                        10
                    } else if ups.len() == 1 {
                        8
                    } else {
                        2
                    };
                    ups.push(Upsample { conv, upsample_factor });
                },
                Err(e) => {
                    proof {
                        lemma_upsamples_fail(w@, (i + 1) as nat, UPSAMPLE_SLOTS as nat);
                    }
                    return Err(e);
                },
            }
        }
    }
    Ok(ups)
}

/// Blocks by their views.
pub open spec fn block_views(blocks: Seq<ResBlock1>) -> Seq<ResBlockView> {
    blocks.map_values(|b: ResBlock1| b@)
}

/// The residual blocks.
fn load_blocks(w: &Weights) -> (r: Result<Vec<ResBlock1>, String>)
    ensures
        match r {
            Ok(list) => blocks_of(w@, BLOCK_SLOTS as nat) == Ok::<Seq<ResBlockView>, Seq<char>>(
                block_views(list@),
            ),
            Err(e) => blocks_of(w@, BLOCK_SLOTS as nat) == Err::<Seq<ResBlockView>, Seq<char>>(e@),
        },
{
    let mut blocks: Vec<ResBlock1> = Vec::new();
    assert(block_views(blocks@) =~= Seq::empty());
    for i in 0..BLOCK_SLOTS
        invariant
            blocks_of(w@, i as nat) == Ok::<Seq<ResBlockView>, Seq<char>>(block_views(blocks@)),
    {
        if w.contains(numbered("dec.resblocks.", i, ".convs1.0.weight_v").as_str()) {
            match ResBlock1::load(w, indexed("dec.resblocks.", i).as_str()) {
                Ok(block) => {
                    let ghost before = blocks@;
                    let ghost added = block@;
                    blocks.push(block);
                    assert(block_views(blocks@) =~= block_views(before).push(added));
                },
                Err(e) => {
                    proof {
                        lemma_blocks_fail(w@, (i + 1) as nat, BLOCK_SLOTS as nat);
                    }
                    return Err(e);
                },
            }
        }
    }
    Ok(blocks)
}

impl Decoder {
    /// The parts of the vocoder.
    pub open spec fn view(&self) -> DecoderView {
        DecoderView {
            conv_pre: self.conv_pre,
            ups: self.ups@,
            resblocks: block_views(self.resblocks@),
            conv_post: self.conv_post,
            cond: self.cond,
            gin_channels: self.gin_channels,
        }
    }

    /// The vocoder of a model file, or the first name that is missing.
    pub fn load(w: &Weights) -> (r: Result<Self, String>)
        ensures
            match r {
                Ok(d) => decoder_of(w@) == Ok::<DecoderView, Seq<char>>(d@),
                Err(e) => decoder_of(w@) == Err::<DecoderView, Seq<char>>(e@),
            },
    {
        let conv_pre = match load_conv(w, "dec.conv_pre", ConvKind::ByGain) {
            Ok(conv) => conv,
            Err(e) => return Err(e),
        };
        let conv_post = match load_conv(w, "dec.conv_post", ConvKind::Plain) {
            Ok(conv) => conv,
            Err(e) => return Err(e),
        };
        let cond = if w.contains("dec.cond.weight_v") {
            match load_conv(w, "dec.cond", ConvKind::ByGain) {
                Ok(conv) => Some(conv),
                Err(e) => return Err(e),
            }
        } else {
            None
        };
        let ups = match load_upsamples(w) {
            Ok(list) => list,
            Err(e) => return Err(e),
        };
        let resblocks = match load_blocks(w) {
            Ok(list) => list,
            Err(e) => return Err(e),
        };
        let gin_channels = match cond {
            Some(conv) => match w.dim(conv.weight, 0) {
                Some(channels) => channels,
                None => DEFAULT_CONDITION,
            },
            None => DEFAULT_CONDITION,
        };
        Ok(Decoder { conv_pre, ups, resblocks, conv_post, cond, gin_channels })
    }

    /// The residual blocks that run behind an upsampling: from the first up to the second, and
    /// none where there are not that many.
    pub fn blocks_behind(&self, stage: usize) -> (r: (usize, usize))
        requires
            stage <= UPSAMPLE_SLOTS,
        ensures
            ({
                let n = self.resblocks@.len();
                let start = BLOCKS_PER_STAGE * stage;
                if start < n {
                    r.0 == start && r.1 == if start + BLOCKS_PER_STAGE < n {
                        start + BLOCKS_PER_STAGE
                    } else {
                        n as int
                    }
                } else {
                    r.0 == n && r.1 == n
                }
            }),
    {
        let n: usize = self.resblocks.len();
        let start: usize = BLOCKS_PER_STAGE * stage;
        if start >= n {
            (n, n)
        } else if start + BLOCKS_PER_STAGE < n {
            (start, start + BLOCKS_PER_STAGE)
        } else {
            (start, n)
        }
    }
}

/// The padding of an upsampling by a stride with a kernel.
pub fn upsample_padding(kernel: usize, stride: usize) -> (r: usize)
    requires
        stride <= kernel,
    ensures
        r == (kernel - stride) / 2,
{
    (kernel - stride) / 2
}

/// The samples that a frame becomes.
pub open spec fn upsampling(ups: Seq<Upsample>) -> int
    decreases ups.len(),
{
    if ups.len() == 0 {
        1
    } else {
        upsampling(ups.drop_last()) * ups.last().upsample_factor
    }
}

/// The factors go by the place of a layer among those that there are.
pub proof fn rates_go_by_place(w: WeightsView, count: nat)
    ensures
        upsamples_of(w, count) matches Ok(ups) ==> forall|i: int|
            0 <= i < ups.len() ==> (#[trigger] ups[i]).upsample_factor == upsample_rate(i),
    decreases count,
{
    if count > 0 {
        rates_go_by_place(w, (count - 1) as nat);
    }
}

/// A vocoder with five upsampling layers makes 640 samples of a frame.
pub proof fn five_layers_make_640(w: WeightsView, count: nat)
    requires
        upsamples_of(w, count) matches Ok(ups) && ups.len() == 5,
    ensures
        upsampling(upsamples_of(w, count)->Ok_0) == 640,
{
    rates_go_by_place(w, count);
    let ups = upsamples_of(w, count)->Ok_0;
    reveal_with_fuel(upsampling, 6);
    assert(ups.drop_last().last() == ups[3]);
    assert(ups.drop_last().drop_last().last() == ups[2]);
    assert(ups.drop_last().drop_last().drop_last().last() == ups[1]);
    assert(ups.drop_last().drop_last().drop_last().drop_last().last() == ups[0]);
    assert(ups.drop_last().drop_last().drop_last().drop_last().drop_last().len() == 0);
}

/// Where every upsampling layer is there, they are loaded in the order of their numbers, each from
/// its own tensors.
pub proof fn upsampling_is_loaded_in_order(w: WeightsView, count: nat, i: int)
    requires
        upsamples_of(w, count) is Ok,
        forall|j: nat| j < count ==> w.has("dec.ups."@ + #[trigger] decimal(j) + ".weight_v"@),
    ensures
        upsamples_of(w, count)->Ok_0.len() == count,
        0 <= i < count ==> conv_of(w, "dec.ups."@ + decimal(i as nat), ConvKind::ByGain) == Ok::<Conv, Seq<char>>(upsamples_of(w, count)->Ok_0[i].conv),
    decreases count,
{
    if count > 0 {
        let j: nat = (count - 1) as nat;
        assert(w.has("dec.ups."@ + decimal(j) + ".weight_v"@));
        upsampling_is_loaded_in_order(w, j, i);
    }
}

/// Where every block is there, the blocks are loaded in the order of their numbers, each from its
/// own tensors.
pub proof fn blocks_are_loaded_in_order(w: WeightsView, count: nat, i: int)
    requires
        blocks_of(w, count) is Ok,
        forall|j: nat| j < count ==> w.has("dec.resblocks."@ + #[trigger] decimal(j) + ".convs1.0.weight_v"@),
    ensures
        blocks_of(w, count)->Ok_0.len() == count,
        0 <= i < count ==> block_of(w, "dec.resblocks."@ + decimal(i as nat)) == Ok::<ResBlockView, Seq<char>>(blocks_of(w, count)->Ok_0[i]),
    decreases count,
{
    if count > 0 {
        let j: nat = (count - 1) as nat;
        assert(w.has("dec.resblocks."@ + decimal(j) + ".convs1.0.weight_v"@));
        blocks_are_loaded_in_order(w, j, i);
    }
}

} // verus!
