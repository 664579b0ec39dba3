//! The flow of a SoVITS model: which tensors its layers are made of, and the order in which they
//! run.

use crate::models::weights::{
    conv_of, indexed, load_conv, numbered, same_outcome, under, Conv, ConvKind, Weights, WeightsView,
};
use crate::strings::decimal;
use vstd::prelude::*;

verus! {

/// A stack of gated convolutions.
pub struct WN {
    pub in_layers: Vec<Conv>,
    pub res_skip_layers: Vec<Conv>,
    pub cond_layer: Option<Conv>,
    pub n_layers: usize,
}

/// A stack of gated convolutions.
pub struct WnView {
    pub in_layers: Seq<Conv>,
    pub res_skip_layers: Seq<Conv>,
    pub cond_layer: Option<Conv>,
    pub n_layers: nat,
}

impl WN {
    /// The layers.
    pub open spec fn view(&self) -> WnView {
        WnView {
            in_layers: self.in_layers@,
            res_skip_layers: self.res_skip_layers@,
            cond_layer: self.cond_layer,
            n_layers: self.n_layers as nat,
        }
    }

    /// Whether the number of layers is that of the convolutions that take the input.
    pub open spec fn counted(&self) -> bool {
        self.n_layers == self.in_layers@.len()
    }
}

/// The numbered convolutions under a prefix from a number on, up to the first that is missing;
/// there are no more than `left`.
pub open spec fn run_of(w: WeightsView, prefix: Seq<char>, from: nat, left: nat) -> Result<
    Seq<Conv>,
    Seq<char>,
>
    decreases left,
{
    if left == 0 || !w.has(prefix + decimal(from) + ".weight_v"@) {
        Ok(Seq::empty())
    } else {
        match conv_of(w, prefix + decimal(from), ConvKind::NormedWide) {
            Ok(conv) => match run_of(w, prefix, from + 1, (left - 1) as nat) {
                Ok(rest) => Ok(seq![conv] + rest),
                Err(e) => Err(e),
            },
            Err(e) => Err(e),
        }
    }
}

/// What precedes a run is put before it.
pub open spec fn behind(before: Seq<Conv>, rest: Result<Seq<Conv>, Seq<char>>) -> Result<
    Seq<Conv>,
    Seq<char>,
> {
    match rest {
        Ok(list) => Ok(before + list),
        Err(e) => Err(e),
    }
}

/// The numbered convolutions under a prefix, up to the first that is missing.
fn load_run(w: &Weights, prefix: &str) -> (r: Result<Vec<Conv>, String>)
    ensures
        match r {
            Ok(list) => run_of(w@, prefix@, 0, w@.names.len()) == Ok::<Seq<Conv>, Seq<char>>(list@),
            Err(e) => run_of(w@, prefix@, 0, w@.names.len()) == Err::<Seq<Conv>, Seq<char>>(e@),
        },
{
    let mut list: Vec<Conv> = Vec::new();
    let total: usize = w.len();
    let mut i: usize = 0;
    let ghost whole = run_of(w@, prefix@, 0, total as nat);
    assert(match whole {
        Ok(l) => Seq::<Conv>::empty() + l =~= l,
        Err(e) => true,
    });
    while i < total
        invariant
            i <= total,
            total == w@.names.len(),
            whole == run_of(w@, prefix@, 0, total as nat),
            whole == behind(list@, run_of(w@, prefix@, i as nat, (total - i) as nat)),
        ensures
            whole == Ok::<Seq<Conv>, Seq<char>>(list@),
        decreases total - i,
    {
        if !w.contains(numbered(prefix, i, ".weight_v").as_str()) {
            assert(list@ + Seq::<Conv>::empty() =~= list@);
            break;
        }
        match load_conv(w, indexed(prefix, i).as_str(), ConvKind::NormedWide) {
            Ok(conv) => {
                proof {
                    let rest = run_of(w@, prefix@, (i + 1) as nat, (total - i - 1) as nat);
                    if let Ok(l) = rest {
                        assert(list@ + (seq![conv] + l) =~= list@.push(conv) + l);
                    }
                }
                list.push(conv);
            },
            Err(e) => return Err(e),
        }
        i = i + 1;
        if i == total {
            assert(list@ + Seq::<Conv>::empty() =~= list@);
        }
    }
    Ok(list)
}

/// The convolution that a condition takes, if there is one.
pub open spec fn condition_of(w: WeightsView, prefix: Seq<char>) -> Result<
    Option<Conv>,
    Seq<char>,
> {
    if w.has(prefix + ".cond_layer.weight_v"@) {
        match conv_of(w, prefix + ".cond_layer"@, ConvKind::NormedWide) {
            Ok(conv) => Ok(Some(conv)),
            Err(e) => Err(e),
        }
    } else {
        Ok(None)
    }
}

/// The convolution that a condition takes, if there is one.
pub fn load_condition(w: &Weights, prefix: &str) -> (r: Result<Option<Conv>, String>)
    ensures
        same_outcome(r, condition_of(w@, prefix@)),
{
    if w.contains(under(prefix, ".cond_layer.weight_v").as_str()) {
        match load_conv(w, under(prefix, ".cond_layer").as_str(), ConvKind::NormedWide) {
            Ok(conv) => Ok(Some(conv)),
            Err(e) => Err(e),
        }
    } else {
        Ok(None)
    }
}

/// The gated convolutions under a prefix.
pub open spec fn wn_of(w: WeightsView, prefix: Seq<char>) -> Result<WnView, Seq<char>> {
    match run_of(w, prefix + ".in_layers."@, 0, w.names.len()) {
        Err(e) => Err(e),
        Ok(in_layers) => match run_of(w, prefix + ".res_skip_layers."@, 0, w.names.len()) {
            Err(e) => Err(e),
            Ok(res_skip_layers) => match condition_of(w, prefix) {
                Err(e) => Err(e),
                Ok(cond_layer) => Ok(
                    WnView { in_layers, res_skip_layers, cond_layer, n_layers: in_layers.len() },
                ),
            },
        },
    }
}

impl WN {
    /// The gated convolutions under a prefix, or the first name that is missing.
    pub fn load(w: &Weights, prefix: &str) -> (r: Result<Self, String>)
        ensures
            match r {
                Ok(wn) => wn.counted() && wn_of(w@, prefix@) == Ok::<WnView, Seq<char>>(wn@),
                Err(e) => wn_of(w@, prefix@) == Err::<WnView, Seq<char>>(e@),
            },
    {
        let in_layers = match load_run(w, under(prefix, ".in_layers.").as_str()) {
            Ok(list) => list,
            Err(e) => return Err(e),
        };
        let res_skip_layers = match load_run(w, under(prefix, ".res_skip_layers.").as_str()) {
            Ok(list) => list,
            Err(e) => return Err(e),
        };
        let cond_layer = match load_condition(w, prefix) {
            Ok(conv) => conv,
            Err(e) => return Err(e),
        };
        let n_layers = in_layers.len();
        Ok(WN { in_layers, res_skip_layers, cond_layer, n_layers })
    }

    /// Where the condition of a layer begins among the channels of the projected condition.
    pub fn condition_offset(&self, layer: usize, channels: usize) -> (r: usize)
        requires
            self.counted(),
            layer < self.in_layers@.len(),
            2 * channels * self.in_layers@.len() <= usize::MAX,
        ensures
            r == layer * 2 * channels,
    {
        proof {
            let n = self.in_layers@.len() as int;
            let l = layer as int;
            let c = channels as int;
            assert(l * 2 * c <= 2 * c * n && l * 2 <= 2 * n) by (nonlinear_arith)
                requires
                    0 <= l < n,
                    0 <= c,
            ;
            assert(c > 0 ==> l * 2 <= 2 * c * n) by (nonlinear_arith)
                requires
                    0 <= l < n,
                    0 <= c,
            ;
        }
        if channels == 0 {
            assert(layer * 2 * channels == 0) by (nonlinear_arith)
                requires
                    channels == 0,
            ;
            0
        } else {
            layer * 2 * channels
        }
    }

    /// Whether a layer gives a remainder to the next one: all but the last do.
    pub fn feeds_next(&self, layer: usize) -> (r: bool)
        requires
            self.counted(),
            layer < self.in_layers@.len(),
        ensures
            r == (layer + 1 < self.in_layers@.len()),
    {
        layer < self.n_layers - 1
    }
}

/// A layer that shifts and scales one half of the channels by the other.
pub struct ResidualCouplingLayer {
    pub pre: Conv,
    pub enc: WN,
    pub post: Conv,
    pub half_channels: usize,
    pub mean_only: bool,
}

/// A layer that shifts and scales one half of the channels by the other.
pub struct CouplingView {
    pub pre: Conv,
    pub enc: WnView,
    pub post: Conv,
    pub half_channels: usize,
    pub mean_only: bool,
}

/// The coupling layer under a prefix. The channels that it takes are the second dimension of its
/// first weight; a weight without it is refused like a missing one.
pub open spec fn coupling_of(w: WeightsView, prefix: Seq<char>, mean_only: bool) -> Result<
    CouplingView,
    Seq<char>,
> {
    match conv_of(w, prefix + ".pre"@, ConvKind::ByDirection) {
        Err(e) => Err(e),
        Ok(pre) => match wn_of(w, prefix + ".enc"@) {
            Err(e) => Err(e),
            Ok(enc) => match conv_of(w, prefix + ".post"@, ConvKind::ByDirection) {
                Err(e) => Err(e),
                Ok(post) => match w.dimension(pre.weight, 1) {
                    Some(half_channels) => Ok(
                        CouplingView { pre, enc, post, half_channels, mean_only },
                    ),
                    None => Err(prefix + ".pre"@),
                },
            },
        },
    }
}

/// How the statistics of a coupling layer are split: into means and logarithms of scales, or
/// means alone.
pub open spec fn has_scales(layer: CouplingView, stat_channels: int) -> bool {
    !layer.mean_only && stat_channels >= layer.half_channels * 2
}

impl ResidualCouplingLayer {
    /// The parts of the layer.
    pub open spec fn view(&self) -> CouplingView {
        CouplingView {
            pre: self.pre,
            enc: self.enc@,
            post: self.post,
            half_channels: self.half_channels,
            mean_only: self.mean_only,
        }
    }

    /// The coupling layer under a prefix, or the first name that is missing.
    pub fn load(w: &Weights, prefix: &str, mean_only: bool) -> (r: Result<Self, String>)
        ensures
            match r {
                Ok(layer) => layer.enc.counted() && coupling_of(w@, prefix@, mean_only) == Ok::<
                    CouplingView,
                    Seq<char>,
                >(layer@),
                Err(e) => coupling_of(w@, prefix@, mean_only) == Err::<CouplingView, Seq<char>>(e@),
            },
    {
        let pre = match load_conv(w, under(prefix, ".pre").as_str(), ConvKind::ByDirection) {
            Ok(conv) => conv,
            Err(e) => return Err(e),
        };
        let enc = match WN::load(w, under(prefix, ".enc").as_str()) {
            Ok(enc) => enc,
            Err(e) => return Err(e),
        };
        let post = match load_conv(w, under(prefix, ".post").as_str(), ConvKind::ByDirection) {
            Ok(conv) => conv,
            Err(e) => return Err(e),
        };
        match w.dim(pre.weight, 1) {
            Some(half_channels) => Ok(
                ResidualCouplingLayer { pre, enc, post, half_channels, mean_only },
            ),
            None => Err(under(prefix, ".pre")),
        }
    }

    /// Whether the statistics hold logarithms of scales beside means.
    pub fn splits_scales(&self, stat_channels: usize) -> (r: bool)
        requires
            self.half_channels <= usize::MAX / 2,
        ensures
            r == has_scales(self@, stat_channels as int),
    {
        !self.mean_only && stat_channels >= self.half_channels * 2
    }
}

/// A stack of coupling layers.
pub struct ResidualCouplingBlock {
    pub layers: Vec<ResidualCouplingLayer>,
}

/// How many numbers of coupling layers are looked at.
pub const FLOW_SLOTS: usize = 8;

/// The coupling layers under a prefix below a count: each for which there is a first weight.
pub open spec fn couplings_of(w: WeightsView, prefix: Seq<char>, count: nat) -> Result<
    Seq<CouplingView>,
    Seq<char>,
>
    decreases count,
{
    if count == 0 {
        Ok(Seq::empty())
    } else {
        let i = (count - 1) as nat;
        match couplings_of(w, prefix, i) {
            Err(e) => Err(e),
            Ok(before) => if w.has(prefix + decimal(i) + ".pre.weight"@) {
                match coupling_of(w, prefix + decimal(i), false) {
                    Ok(layer) => Ok(before.push(layer)),
                    Err(e) => Err(e),
                }
            } else {
                Ok(before)
            },
        }
    }
}

proof fn lemma_couplings_fail(w: WeightsView, prefix: Seq<char>, i: nat, count: nat)
    requires
        i <= count,
        couplings_of(w, prefix, i) is Err,
    ensures
        couplings_of(w, prefix, count) == couplings_of(w, prefix, i),
    decreases count,
{
    if i < count {
        lemma_couplings_fail(w, prefix, i, (count - 1) as nat);
    }
}

/// A pass of the layers of a flow.
#[derive(Debug, Clone, Copy, PartialEq, Eq, Structural)]
pub enum FlowStep {
    /// A layer by its number.
    Layer(usize),
    /// The channels in reverse order.
    Flip,
}

/// The steps of a flow of `n` layers: each layer and a flip behind it.
pub open spec fn forward_steps(n: nat) -> Seq<FlowStep>
    decreases n,
{
    if n == 0 {
        Seq::empty()
    } else {
        forward_steps((n - 1) as nat) + seq![FlowStep::Layer((n - 1) as usize), FlowStep::Flip]
    }
}

/// The steps of a flow backwards.
pub open spec fn inverse_steps(n: nat) -> Seq<FlowStep>
    decreases n,
{
    if n == 0 {
        Seq::empty()
    } else {
        seq![FlowStep::Flip, FlowStep::Layer((n - 1) as usize)] + inverse_steps((n - 1) as nat)
    }
}

/// A flow backwards is the flow with its steps in reverse order.
pub proof fn inverse_is_reversed(n: nat)
    ensures
        inverse_steps(n) == forward_steps(n).reverse(),
    decreases n,
{
    if n > 0 {
        inverse_is_reversed((n - 1) as nat);
        let last = (n - 1) as usize;
        let before = forward_steps((n - 1) as nat);
        assert((before + seq![FlowStep::Layer(last), FlowStep::Flip]).reverse() =~= seq![
            FlowStep::Flip,
            FlowStep::Layer(last),
        ] + before.reverse());
    } else {
        assert(inverse_steps(0) =~= forward_steps(0).reverse());
    }
}

impl ResidualCouplingBlock {
    /// The parts of the layers.
    pub open spec fn view(&self) -> Seq<CouplingView> {
        self.layers@.map_values(|l: ResidualCouplingLayer| l@)
    }

    /// Whether the layers of each stack are counted.
    pub open spec fn counted(&self) -> bool {
        forall|i: int| 0 <= i < self.layers@.len() ==> (#[trigger] self.layers@[i]).enc.counted()
    }

    /// The coupling layers under a prefix, or the first name that is missing.
    pub fn load(w: &Weights, prefix: &str) -> (r: Result<Self, String>)
        ensures
            match r {
                Ok(block) => block.counted() && couplings_of(w@, prefix@ + "."@, FLOW_SLOTS as nat) == Ok::<
                    Seq<CouplingView>,
                    Seq<char>,
                >(block@),
                Err(e) => couplings_of(w@, prefix@ + "."@, FLOW_SLOTS as nat) == Err::<
                    Seq<CouplingView>,
                    Seq<char>,
                >(e@),
            },
    {
        let base = under(prefix, ".");
        let mut layers: Vec<ResidualCouplingLayer> = Vec::new();
        let ghost seen = layers@.map_values(|l: ResidualCouplingLayer| l@);
        assert(seen =~= Seq::empty());
        for i in 0..FLOW_SLOTS
            invariant
                base@ == prefix@ + "."@,
                forall|k: int| 0 <= k < layers@.len() ==> (#[trigger] layers@[k]).enc.counted(),
                couplings_of(w@, base@, i as nat) == Ok::<Seq<CouplingView>, Seq<char>>(
                    layers@.map_values(|l: ResidualCouplingLayer| l@),
                ),
        {
            if w.contains(numbered(base.as_str(), i, ".pre.weight").as_str()) {
                match ResidualCouplingLayer::load(w, indexed(base.as_str(), i).as_str(), false) {
                    Ok(layer) => {
                        let ghost before = layers@;
                        let ghost added = layer@;
                        layers.push(layer);
                        assert(layers@.map_values(|l: ResidualCouplingLayer| l@)
                            =~= before.map_values(|l: ResidualCouplingLayer| l@).push(added));
                    },
                    Err(e) => {
                        proof {
                            lemma_couplings_fail(w@, base@, (i + 1) as nat, FLOW_SLOTS as nat);
                        }
                        return Err(e);
                    },
                }
            }
        }
        Ok(ResidualCouplingBlock { layers })
    }

    /// The steps of the flow, forwards or backwards.
    pub fn steps(&self, reverse: bool) -> (r: Vec<FlowStep>)
        ensures
            r@ == if reverse {
                inverse_steps(self.layers@.len())
            } else {
                forward_steps(self.layers@.len())
            },
    {
        let n: usize = self.layers.len();
        let mut r: Vec<FlowStep> = Vec::new();
        if reverse {
            let mut i: usize = n;
            assert(r@ + inverse_steps(n as nat) =~= inverse_steps(n as nat));
            while i > 0
                invariant
                    i <= n,
                    r@ + inverse_steps(i as nat) == inverse_steps(n as nat),
                decreases i,
            {
                let ghost before = r@;
                r.push(FlowStep::Flip);
                r.push(FlowStep::Layer(i - 1));
                assert(r@ + inverse_steps((i - 1) as nat) =~= before + (seq![
                    FlowStep::Flip,
                    FlowStep::Layer((i - 1) as usize),
                ] + inverse_steps((i - 1) as nat)));
                i = i - 1;
            }
            assert(r@ + inverse_steps(0) =~= r@);
        } else {
            for i in 0..n
                invariant
                    r@ == forward_steps(i as nat),
            {
                let ghost before = r@;
                r.push(FlowStep::Layer(i));
                r.push(FlowStep::Flip);
                assert(r@ =~= before + seq![FlowStep::Layer(i), FlowStep::Flip]);
            }
        }
        r
    }
}

/// The places of channels in reverse order.
pub open spec fn flipped(channels: nat) -> Seq<i64> {
    Seq::new(channels, |i: int| (channels - 1 - i) as i64)
}

/// The places of channels in reverse order.
pub fn flip_indices(channels: usize) -> (r: Vec<i64>)
    requires
        channels <= i64::MAX,
    ensures
        r@ == flipped(channels as nat),
{
    let mut r: Vec<i64> = Vec::new();
    for i in 0..channels
        invariant
            channels <= i64::MAX,
            r@ == flipped(channels as nat).take(i as int),
    {
        r.push((channels - 1 - i) as i64);
        assert(r@ =~= flipped(channels as nat).take(i + 1));
    }
    assert(flipped(channels as nat).take(channels as int) =~= flipped(channels as nat));
    r
}

/// Reversing the channels twice leaves them as they are.
pub proof fn flipping_twice_is_nothing(channels: nat, i: int)
    requires
        0 <= i < channels <= i64::MAX,
    ensures
        0 <= flipped(channels)[i] < channels,
        flipped(channels)[flipped(channels)[i] as int] == i,
{
}

/// Where every coupling layer is there, they are loaded in the order of their numbers, each from
/// its own tensors.
pub proof fn couplings_are_loaded_in_order(w: WeightsView, prefix: Seq<char>, count: nat, i: int)
    requires
        couplings_of(w, prefix, count) is Ok,
        forall|j: nat| j < count ==> w.has(prefix + #[trigger] decimal(j) + ".pre.weight"@),
    ensures
        couplings_of(w, prefix, count)->Ok_0.len() == count,
        0 <= i < count ==> coupling_of(w, prefix + decimal(i as nat), false) == Ok::<CouplingView, Seq<char>>(couplings_of(w, prefix, count)->Ok_0[i]),
    decreases count,
{
    if count > 0 {
        let j: nat = (count - 1) as nat;
        assert(w.has(prefix + decimal(j) + ".pre.weight"@));
        couplings_are_loaded_in_order(w, prefix, j, i);
    }
}

/// A flow runs its layers in their order with a flip behind each.
pub proof fn layers_run_in_order(n: nat, i: int)
    requires
        0 <= i < n <= usize::MAX,
    ensures
        forward_steps(n).len() == 2 * n,
        forward_steps(n)[2 * i] == FlowStep::Layer(i as usize),
        forward_steps(n)[2 * i + 1] == FlowStep::Flip,
    decreases n,
{
    lemma_forward_len(n);
    lemma_forward_len((n - 1) as nat);
    if i < n - 1 {
        layers_run_in_order((n - 1) as nat, i);
    }
}

proof fn lemma_forward_len(n: nat)
    ensures
        forward_steps(n).len() == 2 * n,
    decreases n,
{
    if n > 0 {
        lemma_forward_len((n - 1) as nat);
    }
}

/// A flip turns the order of channels around.
pub proof fn flips_turn_around(channels: nat, i: int, j: int)
    requires
        0 <= i < j < channels <= i64::MAX,
    ensures
        flipped(channels).len() == channels,
        0 <= flipped(channels)[j] < flipped(channels)[i] < channels,
{
}

} // verus!
