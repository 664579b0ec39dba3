//! The tensors of a model file by name and shape, and which of them a layer is made of.

use crate::convert::{find_name, names_have_their_place, place_of_name, TensorInfo};
use crate::strings::{decimal, decimal_string, views};
use vstd::prelude::*;

verus! {

/// The names and shapes of tensors.
pub struct WeightsView {
    pub names: Seq<Seq<char>>,
    pub shapes: Seq<Seq<usize>>,
}

impl WeightsView {
    /// Whether there is a tensor of a name.
    pub open spec fn has(self, key: Seq<char>) -> bool {
        self.names.contains(key)
    }

    /// The place of the tensor of a name, or the name where it is missing.
    pub open spec fn need(self, key: Seq<char>) -> Result<usize, Seq<char>> {
        if self.has(key) {
            Ok(place_of_name(self.names, key) as usize)
        } else {
            Err(key)
        }
    }

    /// The place of the tensor of a name, if there is one.
    pub open spec fn maybe(self, key: Seq<char>) -> Option<usize> {
        if self.has(key) {
            Some(place_of_name(self.names, key) as usize)
        } else {
            None
        }
    }

    /// The place of the tensor of a name and a shape, or the name where there is none.
    pub open spec fn need_shaped(self, key: Seq<char>, dims: Seq<usize>) -> Result<usize, Seq<char>> {
        if self.has(key) && self.shapes[place_of_name(self.names, key)] == dims {
            Ok(place_of_name(self.names, key) as usize)
        } else {
            Err(key)
        }
    }

    /// A dimension of the tensor at a place, if it has that many.
    pub open spec fn dimension(self, place: usize, axis: nat) -> Option<usize> {
        if place < self.shapes.len() && axis < self.shapes[place as int].len() {
            Some(self.shapes[place as int][axis as int])
        } else {
            None
        }
    }
}

/// The tensors of a model file.
pub struct Weights {
    names: Vec<String>,
    shapes: Vec<Vec<usize>>,
}

impl Weights {
    /// The names and shapes of the tensors.
    pub closed spec fn view(&self) -> WeightsView {
        WeightsView {
            names: views(self.names@),
            shapes: self.shapes@.map_values(|d: Vec<usize>| d@),
        }
    }

    #[verifier::type_invariant]
    spec fn well_formed(&self) -> bool {
        self.names@.len() == self.shapes@.len()
    }

    /// The tensors of a list.
    pub fn new(tensors: Vec<TensorInfo>) -> (r: Self)
        ensures
            r@.names == tensors@.map_values(|t: TensorInfo| t.name@),
            r@.shapes == tensors@.map_values(|t: TensorInfo| t.dims@),
    {
        let mut names: Vec<String> = Vec::new();
        let mut shapes: Vec<Vec<usize>> = Vec::new();
        for i in 0..tensors.len()
            invariant
                names@.len() == i,
                shapes@.len() == i,
                forall|k: int| 0 <= k < i ==> (#[trigger] names@[k])@ == tensors@[k].name@,
                forall|k: int| 0 <= k < i ==> (#[trigger] shapes@[k])@ == tensors@[k].dims@,
        {
            let mut shape: Vec<usize> = Vec::new();
            let rank: usize = tensors[i].dims.len();
            for a in 0..rank
                invariant
                    rank == tensors@[i as int].dims@.len(),
                    i < tensors@.len(),
                    shape@ == tensors@[i as int].dims@.take(a as int),
            {
                shape.push(tensors[i].dims[a]);
                assert(shape@ =~= tensors@[i as int].dims@.take(a + 1));
            }
            assert(shape@ =~= tensors@[i as int].dims@);
            names.push(tensors[i].name.clone());
            shapes.push(shape);
        }
        let w = Weights { names, shapes };
        assert(w@.names =~= tensors@.map_values(|t: TensorInfo| t.name@));
        assert(w@.shapes =~= tensors@.map_values(|t: TensorInfo| t.dims@));
        w
    }

    /// Whether there is a tensor of a name.
    pub fn contains(&self, key: &str) -> (r: bool)
        ensures
            r == self@.has(key@),
    {
        find_name(&self.names, key).is_some()
    }

    /// The place of the tensor of a name.
    pub fn get(&self, key: &str) -> (r: Result<usize, String>)
        ensures
            same_outcome(r, self@.need(key@)),
            r matches Ok(place) ==> place < self@.names.len() && place < self@.shapes.len(),
    {
        proof {
            use_type_invariant(self);
        }
        match find_name(&self.names, key) {
            Some(i) => Ok(i),
            None => Err(key.to_owned()),
        }
    }

    /// The place of the tensor of a name and a shape.
    pub fn get_shaped(&self, key: &str, dims: &Vec<usize>) -> (r: Result<usize, String>)
        ensures
            same_outcome(r, self@.need_shaped(key@, dims@)),
    {
        proof {
            use_type_invariant(self);
        }
        match find_name(&self.names, key) {
            Some(i) => {
                assert(self@.shapes[i as int] == self.shapes@[i as int]@);
                if same_shape(&self.shapes[i], dims) {
                    Ok(i)
                } else {
                    Err(key.to_owned())
                }
            },
            None => Err(key.to_owned()),
        }
    }

    /// The place of the tensor of a name, if there is one.
    pub fn get_optional(&self, key: &str) -> (r: Option<usize>)
        ensures
            r == self@.maybe(key@),
    {
        find_name(&self.names, key)
    }

    /// The names of the tensors, one by one.
    pub fn name(&self, i: usize) -> (r: &str)
        requires
            i < self@.names.len(),
        ensures
            r@ == self@.names[i as int],
    {
        self.names[i].as_str()
    }

    /// How many tensors there are.
    pub fn len(&self) -> (r: usize)
        ensures
            r == self@.names.len(),
            r == self@.shapes.len(),
    {
        proof {
            use_type_invariant(self);
        }
        self.names.len()
    }

    /// A dimension of the tensor at a place, if it has that many.
    pub fn dim(&self, place: usize, axis: usize) -> (r: Option<usize>)
        ensures
            r == self@.dimension(place, axis as nat),
    {
        proof {
            use_type_invariant(self);
        }
        if place < self.shapes.len() {
            let shape = &self.shapes[place];
            if axis < shape.len() {
                Some(shape[axis])
            } else {
                None
            }
        } else {
            None
        }
    }
}

/// Whether two shapes are the same.
fn same_shape(a: &Vec<usize>, b: &Vec<usize>) -> (r: bool)
    ensures
        r == (a@ == b@),
{
    if a.len() != b.len() {
        return false;
    }
    for i in 0..a.len()
        invariant
            a@.len() == b@.len(),
            forall|k: int| 0 <= k < i ==> a@[k] == b@[k],
    {
        if a[i] != b[i] {
            return false;
        }
    }
    assert(a@ =~= b@);
    true
}

/// Whether an outcome is the one that is stated: the same value, or the same missing name.
pub open spec fn same_outcome<T>(r: Result<T, String>, s: Result<T, Seq<char>>) -> bool {
    match r {
        Ok(a) => s == Ok::<T, Seq<char>>(a),
        Err(e) => s == Err::<T, Seq<char>>(e@),
    }
}

/// Whether an outcome is the one that is stated: the same values, or the same missing name.
pub open spec fn same_list<T>(r: Result<Vec<T>, String>, s: Result<Seq<T>, Seq<char>>) -> bool {
    match r {
        Ok(a) => s == Ok::<Seq<T>, Seq<char>>(a@),
        Err(e) => s == Err::<Seq<T>, Seq<char>>(e@),
    }
}

/// A name behind a prefix.
pub fn under(prefix: &str, name: &str) -> (r: String)
    ensures
        r@ == prefix@ + name@,
{
    let mut r = prefix.to_owned();
    r.push_str(name);
    r
}

/// A number behind a prefix.
pub fn indexed(prefix: &str, i: usize) -> (r: String)
    ensures
        r@ == prefix@ + decimal(i as nat),
{
    let mut r = prefix.to_owned();
    r.push_str(decimal_string(i as u64).as_str());
    r
}

/// A numbered name behind a prefix.
pub fn numbered(prefix: &str, i: usize, name: &str) -> (r: String)
    ensures
        r@ == prefix@ + decimal(i as nat) + name@,
{
    let mut r = indexed(prefix, i);
    r.push_str(name);
    r
}

/// A convolution by the places of its tensors. Where it has a gain, its weight is a direction
/// that the gain scales.
#[derive(Debug, Clone, Copy, PartialEq, Eq, Structural)]
pub struct Conv {
    pub gain: Option<usize>,
    pub weight: usize,
    pub bias: Option<usize>,
    pub padding: usize,
    pub dilation: usize,
}

/// How a convolution is stored and padded.
#[derive(Debug, Clone, Copy, PartialEq, Eq, Structural)]
pub enum ConvKind {
    /// A weight, padded so that it keeps the length.
    Plain,
    /// A weight, not padded.
    Unpadded,
    /// A gain and a direction; a direction of fewer than three dimensions counts as one wide.
    Normed,
    /// A gain and a direction; a direction of fewer than three dimensions counts as three wide.
    NormedWide,
    /// A gain and a direction, dilated by its width.
    Dilated,
    /// A gain and a direction where there is a direction, else a weight.
    ByDirection,
    /// A gain and a direction where there is a gain, else a weight.
    ByGain,
}

/// The width of a convolution.
pub open spec fn width_of(w: WeightsView, weight: usize, default: int) -> int {
    match w.dimension(weight, 2) {
        Some(k) => k as int,
        None => default,
    }
}

/// A convolution of a weight. One to be padded that has no width is refused like a missing one.
pub open spec fn weight_conv(w: WeightsView, prefix: Seq<char>, padded: bool) -> Result<
    Conv,
    Seq<char>,
> {
    match w.need(prefix + ".weight"@) {
        Ok(weight) => {
            let k = width_of(w, weight, 1);
            if padded && k == 0 {
                Err(prefix + ".weight"@)
            } else {
                Ok(
                    Conv {
                        gain: None,
                        weight,
                        bias: w.maybe(prefix + ".bias"@),
                        padding: if padded {
                            ((k - 1) / 2) as usize
                        } else {
                            0
                        },
                        dilation: 1,
                    },
                )
            }
        },
        Err(e) => Err(e),
    }
}

/// Whether the padding of a direction of a width can be counted: an undilated one needs a width,
/// and the square of a dilated one's is a number of the machine.
pub open spec fn can_pad(k: int, dilated: bool) -> bool {
    if dilated {
        k * k <= usize::MAX
    } else {
        k >= 1
    }
}

/// A convolution of a gain and a direction. A direction whose padding cannot be counted is
/// refused like a missing one.
pub open spec fn direction_conv(
    w: WeightsView,
    prefix: Seq<char>,
    default: int,
    dilated: bool,
) -> Result<Conv, Seq<char>> {
    match w.need(prefix + ".weight_g"@) {
        Ok(gain) => match w.need(prefix + ".weight_v"@) {
            Ok(weight) => {
                let k = width_of(w, weight, default);
                if !can_pad(k, dilated) {
                    Err(prefix + ".weight_v"@)
                } else {
                    Ok(
                        Conv {
                            gain: Some(gain),
                            weight,
                            bias: w.maybe(prefix + ".bias"@),
                            padding: if dilated {
                                ((k * k - k) / 2) as usize
                            } else {
                                ((k - 1) / 2) as usize
                            },
                            dilation: if dilated {
                                k as usize
                            } else {
                                1
                            },
                        },
                    )
                }
            },
            Err(e) => Err(e),
        },
        Err(e) => Err(e),
    }
}

/// The convolution of a kind under a prefix, or the first name that is missing.
pub open spec fn conv_of(w: WeightsView, prefix: Seq<char>, kind: ConvKind) -> Result<
    Conv,
    Seq<char>,
> {
    match kind {
        ConvKind::Plain => weight_conv(w, prefix, true),
        ConvKind::Unpadded => weight_conv(w, prefix, false),
        ConvKind::Normed => direction_conv(w, prefix, 1, false),
        ConvKind::NormedWide => direction_conv(w, prefix, 3, false),
        ConvKind::Dilated => direction_conv(w, prefix, 1, true),
        ConvKind::ByDirection => if w.has(prefix + ".weight_v"@) {
            direction_conv(w, prefix, 1, false)
        } else {
            weight_conv(w, prefix, true)
        },
        ConvKind::ByGain => if w.has(prefix + ".weight_g"@) {
            direction_conv(w, prefix, 1, false)
        } else {
            weight_conv(w, prefix, true)
        },
    }
}

/// A convolution of a weight.
fn load_weight(w: &Weights, prefix: &str, padded: bool) -> (r: Result<Conv, String>)
    ensures
        same_outcome(r, weight_conv(w@, prefix@, padded)),
{
    let weight = match w.get(under(prefix, ".weight").as_str()) {
        Ok(place) => place,
        Err(e) => return Err(e),
    };
    let width: usize = match w.dim(weight, 2) {
        Some(k) => k,
        None => 1,
    };
    if padded && width == 0 {
        return Err(under(prefix, ".weight"));
    }
    Ok(
        Conv {
            gain: None,
            weight,
            bias: w.get_optional(under(prefix, ".bias").as_str()),
            padding: if padded {
                (width - 1) / 2
            } else {
                0
            },
            dilation: 1,
        },
    )
}

/// A convolution of a gain and a direction.
fn load_direction(w: &Weights, prefix: &str, default: usize, dilated: bool) -> (r: Result<Conv, String>)
    requires
        1 <= default <= 3,
    ensures
        same_outcome(r, direction_conv(w@, prefix@, default as int, dilated)),
{
    let gain = match w.get(under(prefix, ".weight_g").as_str()) {
        Ok(place) => place,
        Err(e) => return Err(e),
    };
    let weight = match w.get(under(prefix, ".weight_v").as_str()) {
        Ok(place) => place,
        Err(e) => return Err(e),
    };
    let width: usize = match w.dim(weight, 2) {
        Some(k) => k,
        None => default,
    };
    let ghost k = width_of(w@, weight, default as int);
    assert(width == k);
    let (padding, dilation): (usize, usize) = if dilated {
        match width.checked_mul(width) {
            Some(square) => {
                assert(k * k >= k) by (nonlinear_arith)
                    requires
                        k >= 0,
                ;
                ((square - width) / 2, width)
            },
            None => return Err(under(prefix, ".weight_v")),
        }
    } else if width == 0 {
        return Err(under(prefix, ".weight_v"));
    } else {
        ((width - 1) / 2, 1)
    };
    Ok(
        Conv {
            gain: Some(gain),
            weight,
            bias: w.get_optional(under(prefix, ".bias").as_str()),
            padding,
            dilation,
        },
    )
}

/// The convolution of a kind under a prefix.
pub fn load_conv(w: &Weights, prefix: &str, kind: ConvKind) -> (r: Result<Conv, String>)
    ensures
        same_outcome(r, conv_of(w@, prefix@, kind)),
{
    match kind {
        ConvKind::Plain => load_weight(w, prefix, true),
        ConvKind::Unpadded => load_weight(w, prefix, false),
        ConvKind::Normed => load_direction(w, prefix, 1, false),
        ConvKind::NormedWide => load_direction(w, prefix, 3, false),
        ConvKind::Dilated => load_direction(w, prefix, 1, true),
        ConvKind::ByDirection => {
            if w.contains(under(prefix, ".weight_v").as_str()) {
                load_direction(w, prefix, 1, false)
            } else {
                load_weight(w, prefix, true)
            }
        },
        ConvKind::ByGain => {
            if w.contains(under(prefix, ".weight_g").as_str()) {
                load_direction(w, prefix, 1, false)
            } else {
                load_weight(w, prefix, true)
            }
        },
    }
}

/// The numbered convolutions under a prefix below a count: each for which there is a direction.
pub open spec fn convs_of(w: WeightsView, prefix: Seq<char>, count: nat, kind: ConvKind) -> Result<
    Seq<Conv>,
    Seq<char>,
>
    decreases count,
{
    if count == 0 {
        Ok(Seq::empty())
    } else {
        let i = (count - 1) as nat;
        match convs_of(w, prefix, i, kind) {
            Ok(before) => if w.has(prefix + decimal(i) + ".weight_v"@) {
                match conv_of(w, prefix + decimal(i), kind) {
                    Ok(conv) => Ok(before.push(conv)),
                    Err(e) => Err(e),
                }
            } else {
                Ok(before)
            },
            Err(e) => Err(e),
        }
    }
}

proof fn lemma_convs_fail(w: WeightsView, prefix: Seq<char>, i: nat, count: nat, kind: ConvKind)
    requires
        i <= count,
        convs_of(w, prefix, i, kind) is Err,
    ensures
        convs_of(w, prefix, count, kind) == convs_of(w, prefix, i, kind),
    decreases count,
{
    if i < count {
        lemma_convs_fail(w, prefix, i, (count - 1) as nat, kind);
    }
}

/// The numbered convolutions under a prefix below a count.
pub fn load_convs(w: &Weights, prefix: &str, count: usize, kind: ConvKind) -> (r: Result<
    Vec<Conv>,
    String,
>)
    ensures
        same_list(r, convs_of(w@, prefix@, count as nat, kind)),
{
    let mut r: Vec<Conv> = Vec::new();
    for i in 0..count
        invariant
            convs_of(w@, prefix@, i as nat, kind) == Ok::<Seq<Conv>, Seq<char>>(r@),
    {
        if w.contains(numbered(prefix, i, ".weight_v").as_str()) {
            match load_conv(w, indexed(prefix, i).as_str(), kind) {
                Ok(conv) => r.push(conv),
                Err(e) => {
                    proof {
                        lemma_convs_fail(w@, prefix@, (i + 1) as nat, count as nat, kind);
                    }
                    return Err(e);
                },
            }
        }
    }
    Ok(r)
}

/// A weight and a bias by their places.
#[derive(Debug, Clone, Copy, PartialEq, Eq, Structural)]
pub struct Affine {
    pub weight: usize,
    pub bias: usize,
}

/// The weight and the bias under a prefix, or the first of them that is missing.
pub open spec fn affine_of(w: WeightsView, prefix: Seq<char>) -> Result<Affine, Seq<char>> {
    match w.need(prefix + ".weight"@) {
        Err(e) => Err(e),
        Ok(weight) => match w.need(prefix + ".bias"@) {
            Err(e) => Err(e),
            Ok(bias) => Ok(Affine { weight, bias }),
        },
    }
}

/// The weight and the bias under a prefix.
pub fn load_affine(w: &Weights, prefix: &str) -> (r: Result<Affine, String>)
    ensures
        same_outcome(r, affine_of(w@, prefix@)),
        r matches Ok(a) ==> a.weight < w@.shapes.len() && a.bias < w@.shapes.len(),
{
    let weight = match w.get(under(prefix, ".weight").as_str()) {
        Ok(place) => place,
        Err(e) => return Err(e),
    };
    match w.get(under(prefix, ".bias").as_str()) {
        Ok(bias) => Ok(Affine { weight, bias }),
        Err(e) => Err(e),
    }
}

/// A tensor is found if and only if there is one of its name, and what is found has that name;
/// one that is missing is named.
pub proof fn tensors_are_found_by_name(w: WeightsView, key: Seq<char>)
    requires
        w.names.len() <= usize::MAX,
    ensures
        w.need(key) is Ok <==> w.names.contains(key),
        w.need(key) matches Ok(place) ==> place < w.names.len() && w.names[place as int] == key,
        w.need(key) matches Err(missing) ==> missing == key,
        w.maybe(key) is Some <==> w.names.contains(key),
        w.maybe(key) matches Some(place) ==> place < w.names.len() && w.names[place as int] == key,
{
    names_have_their_place(w.names, key);
}

/// A padded convolution keeps the length of what it is applied to where its width is odd: it pads
/// each side by half of what its dilated width takes away.
pub proof fn padded_convolutions_keep_lengths(w: WeightsView, prefix: Seq<char>, kind: ConvKind)
    requires
        kind != ConvKind::Unpadded,
        conv_of(w, prefix, kind) is Ok,
        w.dimension(conv_of(w, prefix, kind)->Ok_0.weight, 2) is Some,
        w.dimension(conv_of(w, prefix, kind)->Ok_0.weight, 2)->0 % 2 == 1,
    ensures
        ({
            let conv = conv_of(w, prefix, kind)->Ok_0;
            let width = w.dimension(conv.weight, 2)->0;
            &&& 2 * conv.padding == conv.dilation * (width - 1)
            &&& conv.dilation == if kind == ConvKind::Dilated {
                width
            } else {
                1
            }
        }),
{
    let conv = conv_of(w, prefix, kind)->Ok_0;
    let k = w.dimension(conv.weight, 2)->0 as int;
    if kind == ConvKind::Dilated {
        assert(k * k - k == k * (k - 1)) by (nonlinear_arith);
        let half = (k - 1) / 2;
        assert(k * (k - 1) == 2 * (k * half)) by (nonlinear_arith)
            requires
                k - 1 == 2 * half,
        ;
        assert(k * k - k >= 0) by (nonlinear_arith)
            requires
                k >= 1,
        ;
        assert(conv.dilation == k);
        assert(conv.padding == k * half);
        assert(conv.dilation * (k - 1) == k * (k - 1));
    } else {
        let d = conv.dilation as int;
        assert(d == 1);
        assert(2 * conv.padding == k - 1);
        assert(d * (k - 1) == k - 1) by (nonlinear_arith)
            requires
                d == 1,
        ;
    }
}

/// A layer that is loaded has its own weight and its own bias, and one that is not misses one of
/// them.
pub proof fn layers_have_their_tensors(w: WeightsView, prefix: Seq<char>)
    requires
        w.names.len() <= usize::MAX,
    ensures
        affine_of(w, prefix) is Ok <==> w.names.contains(prefix + ".weight"@) && w.names.contains(
            prefix + ".bias"@,
        ),
        affine_of(w, prefix) matches Ok(a) ==> a.weight < w.names.len() && a.bias < w.names.len()
            && w.names[a.weight as int] == prefix + ".weight"@ && w.names[a.bias as int] == prefix
            + ".bias"@,
{
    tensors_are_found_by_name(w, prefix + ".weight"@);
    tensors_are_found_by_name(w, prefix + ".bias"@);
}

/// Where every numbered convolution is there, they are loaded in the order of their numbers, each
/// from its own tensors.
pub proof fn convolutions_are_loaded_in_order(w: WeightsView, prefix: Seq<char>, kind: ConvKind, count: nat, i: int)
    requires
        convs_of(w, prefix, count, kind) is Ok,
        forall|j: nat| j < count ==> w.has(prefix + #[trigger] decimal(j) + ".weight_v"@),
    ensures
        convs_of(w, prefix, count, kind)->Ok_0.len() == count,
        0 <= i < count ==> conv_of(w, prefix + decimal(i as nat), kind) == Ok::<Conv, Seq<char>>(convs_of(w, prefix, count, kind)->Ok_0[i]),
    decreases count,
{
    if count > 0 {
        let j: nat = (count - 1) as nat;
        assert(w.has(prefix + decimal(j) + ".weight_v"@));
        convolutions_are_loaded_in_order(w, prefix, kind, j, i);
    }
}

} // verus!
