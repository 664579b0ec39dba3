//! The model that makes audio of semantic tokens: its parts, its codebook, and what is written
//! down of its intermediate values.

use crate::convert::decimals;
use crate::float_bits::F32;
use crate::models::grid::{grid, grid_prefix, lemma_push, lemma_row_end};
use crate::models::sovits_decoder::{decoder_of, Decoder, DecoderView};
use crate::models::sovits_encp::{encp_of, EncP, EncPView};
use crate::models::sovits_encq::{encq_of, EncQ, EncQView};
use crate::models::sovits_flow::{couplings_of, CouplingView, ResidualCouplingBlock, FLOW_SLOTS};
use crate::models::sovits_ref_enc::{ref_enc_of, RefEnc};
use crate::models::weights::{Weights, WeightsView};
use crate::strings::{decimal_string, join, join_strings, lemma_views_push, views};
use crate::Error;
use vstd::prelude::*;

verus! {

/// The layers of the text encoder.
pub const TEXT_LAYERS: usize = 6;

/// The channels that the encoders give.
pub const LATENT_CHANNELS: usize = 192;

/// The width of a code.
pub const CODE_WIDTH: usize = 768;

/// The samples of a second of audio.
pub const SAMPLING_RATE: u32 = 32000;

/// The number of mel bands.
pub const MEL_BANDS: usize = 100;

/// The model by the places of its tensors.
pub struct SoVITSModel {
    pub codebook: usize,
    pub enc_p: EncP,
    pub enc_q: EncQ,
    pub flow: ResidualCouplingBlock,
    pub decoder: Decoder,
    pub ref_enc: RefEnc,
}

/// The model by the places of its tensors.
pub struct SovitsView {
    pub codebook: usize,
    pub enc_p: EncPView,
    pub enc_q: EncQView,
    pub flow: Seq<CouplingView>,
    pub decoder: DecoderView,
    pub ref_enc: RefEnc,
}

/// The encoders of a model file, with the codebook.
pub open spec fn sovits_encoders_of(w: WeightsView) -> Result<
    (usize, EncPView, EncQView),
    Seq<char>,
> {
    match w.need("quantizer.vq.layers.0._codebook.embed"@) {
        Err(e) => Err(e),
        Ok(codebook) => match encp_of(w, TEXT_LAYERS as nat, LATENT_CHANNELS) {
            Err(e) => Err(e),
            Ok(enc_p) => match encq_of(w, LATENT_CHANNELS) {
                Err(e) => Err(e),
                Ok(enc_q) => Ok((codebook, enc_p, enc_q)),
            },
        },
    }
}

/// The model of a model file.
pub open spec fn sovits_of(w: WeightsView) -> Result<SovitsView, Seq<char>> {
    match sovits_encoders_of(w) {
        Err(e) => Err(e),
        Ok((codebook, enc_p, enc_q)) => match couplings_of(
            w,
            "flow.flows"@ + "."@,
            FLOW_SLOTS as nat,
        ) {
            Err(e) => Err(e),
            Ok(flow) => match decoder_of(w) {
                Err(e) => Err(e),
                Ok(decoder) => match ref_enc_of(w) {
                    Err(e) => Err(e),
                    Ok(ref_enc) => Ok(SovitsView { codebook, enc_p, enc_q, flow, decoder, ref_enc }),
                },
            },
        },
    }
}

impl SoVITSModel {
    /// The parts of the model.
    pub open spec fn view(&self) -> SovitsView {
        SovitsView {
            codebook: self.codebook,
            enc_p: self.enc_p@,
            enc_q: self.enc_q@,
            flow: self.flow@,
            decoder: self.decoder@,
            ref_enc: self.ref_enc,
        }
    }

    /// The model of a model file, or the first name that is missing.
    pub fn load(w: &Weights) -> (r: Result<Self, String>)
        ensures
            match r {
                Ok(m) => {
                    &&& sovits_of(w@) == Ok::<SovitsView, Seq<char>>(m@)
                    &&& m.enc_q.enc.counted()
                    &&& m.flow.counted()
                },
                Err(e) => sovits_of(w@) == Err::<SovitsView, Seq<char>>(e@),
            },
    {
        let codebook = match w.get("quantizer.vq.layers.0._codebook.embed") {
            Ok(place) => place,
            Err(e) => return Err(e),
        };
        let enc_p = match EncP::load(w, TEXT_LAYERS, LATENT_CHANNELS) {
            Ok(enc) => enc,
            Err(e) => return Err(e),
        };
        let enc_q = match EncQ::load(w, LATENT_CHANNELS) {
            Ok(enc) => enc,
            Err(e) => return Err(e),
        };
        let flow = match ResidualCouplingBlock::load(w, "flow.flows") {
            Ok(flow) => flow,
            Err(e) => return Err(e),
        };
        let decoder = match Decoder::load(w) {
            Ok(decoder) => decoder,
            Err(e) => return Err(e),
        };
        match RefEnc::load(w) {
            Ok(ref_enc) => Ok(SoVITSModel { codebook, enc_p, enc_q, flow, decoder, ref_enc }),
            Err(e) => Err(e),
        }
    }
}

/// What is wrong with the tokens that audio is to be made of.
pub open spec fn tokens_fault(semantic: nat, text: nat) -> Option<Seq<char>> {
    if semantic == 0 {
        Some("Empty semantic tokens"@)
    } else if text == 0 {
        Some("Empty text tokens"@)
    } else {
        None
    }
}

/// There are tokens of both kinds to make audio of.
pub fn check_tokens(semantic: &Vec<usize>, text: &Vec<usize>) -> (r: Result<(), Error>)
    ensures
        match r {
            Ok(_) => tokens_fault(semantic@.len(), text@.len()) is None,
            Err(e) => e matches Error::InferenceError(m) && tokens_fault(
                semantic@.len(),
                text@.len(),
            ) == Some(m@),
        },
{
    if semantic.len() == 0 {
        Err(Error::InferenceError("Empty semantic tokens".to_owned()))
    } else if text.len() == 0 {
        Err(Error::InferenceError("Empty text tokens".to_owned()))
    } else {
        Ok(())
    }
}

/// The codes that semantic tokens stand for.
pub struct Quantizer {
    dimension: usize,
    bins: usize,
    codebook: Vec<F32>,
}

impl Quantizer {
    /// The width of a code.
    pub closed spec fn width(&self) -> nat {
        self.dimension as nat
    }

    /// The number of codes.
    pub closed spec fn codes(&self) -> nat {
        self.bins as nat
    }

    /// A value of a code.
    pub closed spec fn value(&self, code: int, d: int) -> F32 {
        self.codebook@[code * self.dimension + d]
    }

    #[verifier::type_invariant]
    spec fn well_formed(&self) -> bool {
        self.codebook@.len() == self.bins * self.dimension
    }

    /// The codes of a codebook that is written code by code.
    pub fn new(dimension: usize, bins: usize, codebook: Vec<F32>) -> (r: Self)
        requires
            codebook@.len() == bins * dimension,
        ensures
            r.width() == dimension,
            r.codes() == bins,
            forall|c: int, d: int| #[trigger] r.value(c, d) == codebook@[c * dimension + d],
    {
        Quantizer { dimension, bins, codebook }
    }

    /// The codes of sequences of `seq_len` tokens each, for each sequence value by value; nothing
    /// where there is no token, or one has no code.
    pub fn decode(&self, tokens: &Vec<usize>, batch: usize, seq_len: usize) -> (r: Option<Vec<F32>>)
        requires
            tokens@.len() == batch * seq_len,
        ensures
            match r {
                Some(values) => {
                    &&& tokens@.len() > 0
                    &&& forall|i: int|
                        0 <= i < tokens@.len() ==> (#[trigger] tokens@[i]) < self.codes()
                    &&& values@ == grid(
                        batch as nat * self.width(),
                        seq_len as nat,
                        |row: int, t: int|
                            self.value(
                                tokens@[(row / self.width() as int) * seq_len + t] as int,
                                row % self.width() as int,
                            ),
                    )
                },
                None => tokens@.len() == 0 || exists|i: int|
                    0 <= i < tokens@.len() && (#[trigger] tokens@[i]) >= self.codes(),
            },
    {
        proof {
            use_type_invariant(self);
        }
        if tokens.len() == 0 {
            return None;
        }
        for i in 0..tokens.len()
            invariant
                forall|k: int| 0 <= k < i ==> (#[trigger] tokens@[k]) < self.codes(),
        {
            if tokens[i] >= self.bins {
                return None;
            }
        }
        let ghost width = self.width();
        let ghost n = seq_len as nat;
        let ghost f = |row: int, t: int|
            self.value(
                tokens@[(row / self.width() as int) * seq_len + t] as int,
                row % self.width() as int,
            );
        let mut values: Vec<F32> = Vec::new();
        proof {
            lemma_row_end(width, 0);
            lemma_row_end(n, 0);
        }
        let mut start: usize = 0;
        for b in 0..batch
            invariant
                tokens@.len() == batch * seq_len,
                start == b * seq_len,
                start <= tokens@.len(),
                forall|k: int| 0 <= k < tokens@.len() ==> (#[trigger] tokens@[k]) < self.codes(),
                self.codebook@.len() == self.bins * self.dimension,
                width == self.width(),
                n == seq_len,
                f == (|row: int, t: int|
                    self.value(
                        tokens@[(row / self.width() as int) * seq_len + t] as int,
                        row % self.width() as int,
                    )),
                values@ == grid_prefix(b as nat * width * n, n, f),
        {
            proof {
                lemma_row_end(width, b as nat);
                lemma_row_end(n, b as nat);
                assert((b + 1) * seq_len <= batch * seq_len) by (nonlinear_arith)
                    requires
                        b + 1 <= batch,
                        0 <= seq_len,
                ;
            }
            let total: usize = tokens.len();
            for d in 0..self.dimension
                invariant
                    total == tokens@.len(),
                    start == b * seq_len,
                    start + seq_len <= total,
                    forall|k: int|
                        0 <= k < tokens@.len() ==> (#[trigger] tokens@[k]) < self.codes(),
                    self.codebook@.len() == self.bins * self.dimension,
                    width == self.width(),
                    n == seq_len,
                    f == (|row: int, t: int|
                        self.value(
                            tokens@[(row / self.width() as int) * seq_len + t] as int,
                            row % self.width() as int,
                        )),
                    values@ == grid_prefix((b as nat * width + d as nat) * n, n, f),
            {
                let ghost row = b as nat * width + d as nat;
                proof {
                    lemma_row_end(n, row);
                    vstd::arithmetic::div_mod::lemma_fundamental_div_mod_converse(
                        row as int,
                        width as int,
                        b as int,
                        d as int,
                    );
                }
                let codes: usize = self.codebook.len();
                for t in 0..seq_len
                    invariant
                        total == tokens@.len(),
                        codes == self.codebook@.len(),
                        start == b * seq_len,
                        start + seq_len <= total,
                        d < self.dimension,
                        forall|k: int|
                            0 <= k < tokens@.len() ==> (#[trigger] tokens@[k]) < self.codes(),
                        self.codebook@.len() == self.bins * self.dimension,
                        width == self.width(),
                        n == seq_len,
                        row / width == b,
                        row % width == d,
                        f == (|row: int, t: int|
                            self.value(
                                tokens@[(row / self.width() as int) * seq_len + t] as int,
                                row % self.width() as int,
                            )),
                        values@ == grid_prefix(row * n + t as nat, n, f),
                {
                    let code: usize = tokens[start + t];
                    proof {
                        lemma_push(values@, n, row, t as nat, f);
                        assert(tokens@[start + t] < self.codes());
                        assert(code * self.dimension + d < self.bins * self.dimension)
                            by (nonlinear_arith)
                            requires
                                code + 1 <= self.bins,
                                d < self.dimension,
                        ;
                        assert(0 <= code * self.dimension <= code * self.dimension + d)
                            by (nonlinear_arith)
                            requires
                                0 <= code,
                                0 <= self.dimension,
                                0 <= d,
                        ;
                    }
                    values.push(self.codebook[code * self.dimension + d]);
                }
            }
            start = start + seq_len;
        }
        Some(values)
    }
}

/// The values with each one twice.
pub fn nearest_upsample_2x(values: &Vec<F32>) -> (r: Vec<F32>)
    ensures
        r@ == Seq::new(2 * values@.len(), |i: int| values@[i / 2]),
{
    let mut r: Vec<F32> = Vec::new();
    for i in 0..values.len()
        invariant
            r@ == Seq::new(2 * i as nat, |k: int| values@[k / 2]),
    {
        r.push(values[i]);
        r.push(values[i]);
        assert(r@ =~= Seq::new(2 * (i + 1) as nat, |k: int| values@[k / 2]));
    }
    r
}

/// Numbers in decimal.
fn decimal_strings(numbers: &Vec<usize>) -> (r: Vec<String>)
    ensures
        views(r@) == decimals(numbers@),
{
    let mut r: Vec<String> = Vec::new();
    for i in 0..numbers.len()
        invariant
            views(r@) == decimals(numbers@).take(i as int),
    {
        let number = decimal_string(numbers[i] as u64);
        proof {
            lemma_views_push(r@, number);
            assert(decimals(numbers@).take(i + 1) =~= decimals(numbers@).take(i as int).push(
                number@,
            ));
        }
        r.push(number);
    }
    assert(decimals(numbers@).take(numbers@.len() as int) =~= decimals(numbers@));
    r
}

/// Tokens as they are written down: how many there are, then each of them, line by line.
pub fn token_dump(tokens: &Vec<usize>) -> (r: String)
    ensures
        r@ == join(decimals(seq![tokens@.len() as usize] + tokens@), "\n"@) + "\n"@,
{
    let mut all: Vec<usize> = Vec::new();
    all.push(tokens.len());
    for i in 0..tokens.len()
        invariant
            all@ == seq![tokens@.len() as usize] + tokens@.take(i as int),
    {
        all.push(tokens[i]);
        assert(all@ =~= seq![tokens@.len() as usize] + tokens@.take(i + 1));
    }
    assert(tokens@.take(tokens@.len() as int) =~= tokens@);
    let mut r = join_strings(&decimal_strings(&all), "\n");
    r.push_str("\n");
    r
}

/// A tensor as it is written down: its shape, then its values, which are given as they are
/// written, line by line.
pub fn tensor_dump(dims: &Vec<usize>, values: &Vec<String>) -> (r: String)
    ensures
        r@ == join(decimals(dims@), ","@) + "\n"@ + join(views(values@), "\n"@) + "\n"@,
{
    let mut r = join_strings(&decimal_strings(dims), ",");
    r.push_str("\n");
    r.push_str(join_strings(values, "\n").as_str());
    r.push_str("\n");
    r
}

/// Samples as they are written down: their values, which are given as they are written, line by
/// line.
pub fn sample_dump(values: &Vec<String>) -> (r: String)
    ensures
        r@ == join(views(values@), "\n"@) + "\n"@,
{
    let mut r = join_strings(values, "\n");
    r.push_str("\n");
    r
}

/// The file that an intermediate value is written to.
pub fn debug_file(name: &str) -> (r: String)
    ensures
        r@ == "sovits_debug_"@ + name@ + ".txt"@,
{
    let mut r = "sovits_debug_".to_owned();
    r.push_str(name);
    r.push_str(".txt");
    r
}

/// The intermediate values that are summed up, in their order.
pub fn debug_stages() -> (r: Vec<String>)
    ensures
        views(r@) == seq![
            "quantized"@,
            "quantized_up"@,
            "encp_m"@,
            "encp_logs"@,
            "zp"@,
            "flow_z"@,
            "dec_input"@,
        ],
{
    let mut r: Vec<String> = Vec::new();
    r.push("quantized".to_owned());
    r.push("quantized_up".to_owned());
    r.push("encp_m".to_owned());
    r.push("encp_logs".to_owned());
    r.push("zp".to_owned());
    r.push("flow_z".to_owned());
    r.push("dec_input".to_owned());
    assert(views(r@) =~= seq![
        "quantized"@,
        "quantized_up"@,
        "encp_m"@,
        "encp_logs"@,
        "zp"@,
        "flow_z"@,
        "dec_input"@,
    ]);
    r
}

} // verus!
