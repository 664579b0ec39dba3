//! The model that gives text features: where its tokenizer is found, and where it runs.

use crate::config::{device_name, Device};
use crate::doctor::fallback_tokenizer;
use crate::models::token_setup::{is_fit, takes_every_text};
use crate::models::Model;
use crate::paths::{beside, sibling};
use crate::Error;
use tokenizers::Tokenizer;
use vstd::prelude::*;

verus! {

/// How many tokens a text may have.
pub const MAX_TOKENS: usize = 512;

/// The model that gives text features: its files, and where it runs.
pub struct BertModel {
    weights: String,
    tokenizer: String,
    device: Device,
    max_length: usize,
}

impl BertModel {
    /// The path of the weights.
    pub closed spec fn weights_path(&self) -> Seq<char> {
        self.weights@
    }

    /// The path of the tokenizer.
    pub closed spec fn tokenizer_path(&self) -> Seq<char> {
        self.tokenizer@
    }

    /// Where the model runs.
    pub closed spec fn runs_on(&self) -> Device {
        self.device
    }

    /// How many tokens a text may have.
    pub closed spec fn limit(&self) -> usize {
        self.max_length
    }

    /// The path beside the weights at which a tokenizer is looked for first.
    pub fn tokenizer_beside(path: &str) -> (r: String)
        ensures
            r@ == beside(path@, "tokenizer.json"@),
    {
        sibling(path, "tokenizer.json")
    }

    /// The model of a path: with the tokenizer beside it where there is one, else the one at the
    /// usual place.
    pub fn load_with_device(path: &str, device: Device, has_tokenizer: bool) -> (r: Self)
        ensures
            r.weights_path() == path@,
            r.tokenizer_path() == if has_tokenizer {
                beside(path@, "tokenizer.json"@)
            } else {
                fallback_tokenizer()
            },
            r.runs_on() == device,
            r.limit() == MAX_TOKENS,
    {
        BertModel {
            weights: path.to_owned(),
            tokenizer: if has_tokenizer {
                sibling(path, "tokenizer.json")
            } else {
                "models/bert/tokenizer.json".to_owned()
            },
            device,
            max_length: MAX_TOKENS,
        }
    }

    /// The path of the weights.
    pub fn weights(&self) -> (r: &str)
        ensures
            r@ == self.weights_path(),
    {
        self.weights.as_str()
    }

    /// The path of the tokenizer.
    pub fn tokenizer(&self) -> (r: &str)
        ensures
            r@ == self.tokenizer_path(),
    {
        self.tokenizer.as_str()
    }

    /// How many tokens a text may have.
    pub fn max_length(&self) -> (r: usize)
        ensures
            r == self.limit(),
    {
        self.max_length
    }

    /// The name of the device on which the model runs.
    pub fn device(&self) -> (r: &str)
        ensures
            r@ == device_name(self.runs_on()),
    {
        self.device.as_str()
    }
}

impl Model for BertModel {
    open spec fn place(&self) -> Device {
        self.runs_on()
    }

    fn device(&self) -> (r: &str) {
        self.device.as_str()
    }

    /// The model stays where it was loaded.
    fn to_device(&mut self, device: &str) -> (r: Result<(), Error>)
        ensures
            r is Ok,
            *final(self) == *old(self),
    {
        Ok(())
    }
}

/// The names of the weights as the model knows them: a normalisation is written with capitals.
pub fn canonical_name(name: &str) -> (r: String)
    ensures
        r@ == crate::strings::replaced(name@, "layer_norm"@, "LayerNorm"@),
{
    proof {
        reveal_strlit("layer_norm");
    }
    crate::strings::replace(name, "layer_norm", "LayerNorm")
}

/// The identifiers of the tokens of a text and the attention paid to them, as
/// `Tokenizer::encode` gives them with special tokens, or why there are none. Added tokens are
/// looked for as the normalizer of the tokenizer leaves them.
pub uninterp spec fn encoded(tokenizer: Tokenizer, text: Seq<char>) -> Result<
    (Seq<u32>, Seq<u32>),
    Seq<char>,
>;

/// `Tokenizer::encode`, with special tokens, gives the identifiers of the tokens of a text and,
/// for each, whether attention is paid to it. A tokenizer that takes every text draws no lots,
/// so the same text gives the same tokens. It is asked of a copy on which `Tokenizer::add_tokens`,
/// given none, has laid out the added tokens anew, as the normalizer of the tokenizer leaves them.
#[verifier::external_body]
fn encode_text(tokenizer: &Tokenizer, text: &str) -> (r: Result<(Vec<u32>, Vec<u32>), String>)
    requires
        takes_every_text(*tokenizer),
    ensures
        match r {
            Ok(tokens) => {
                &&& encoded(*tokenizer, text@) == Ok::<(Seq<u32>, Seq<u32>), Seq<char>>(
                    (tokens.0@, tokens.1@),
                )
                &&& tokens.0@.len() == tokens.1@.len()
            },
            Err(m) => encoded(*tokenizer, text@) == Err::<(Seq<u32>, Seq<u32>), Seq<char>>(m@),
        },
{
    let mut copy = tokenizer.clone();
    copy.add_tokens(&[]);
    match copy.encode(text, true) {
        Ok(encoding) => Ok((encoding.get_ids().to_vec(), encoding.get_attention_mask().to_vec())),
        Err(e) => Err(e.to_string()),
    }
}

/// The rows that go into the model: the tokens of a text, their kinds and the attention paid to
/// them.
pub struct TokenRows {
    pub ids: Vec<u32>,
    pub kinds: Vec<u32>,
    pub mask: Vec<u32>,
}

/// Takes what a tokenizer made of a text: all tokens are of the first kind.
pub fn token_rows(encoded: Result<(Vec<u32>, Vec<u32>), String>) -> (r: Result<TokenRows, Error>)
    ensures
        match encoded {
            Ok(tokens) => r matches Ok(rows) && {
                &&& rows.ids@ == tokens.0@
                &&& rows.mask@ == tokens.1@
                &&& rows.kinds@ == Seq::new(tokens.0@.len(), |i: int| 0u32)
            },
            Err(m) => r matches Err(Error::InferenceError(e)) && e@ == "tokenize: "@ + m@,
        },
{
    match encoded {
        Ok((ids, mask)) => {
            let mut kinds: Vec<u32> = Vec::new();
            for i in 0..ids.len()
                invariant
                    kinds@ == Seq::new(i as nat, |i: int| 0u32),
            {
                kinds.push(0);
                assert(kinds@ =~= Seq::new((i + 1) as nat, |i: int| 0u32));
            }
            Ok(TokenRows { ids, kinds, mask })
        },
        Err(m) => {
            let mut e = "tokenize: ".to_owned();
            e.push_str(m.as_str());
            Err(Error::InferenceError(e))
        },
    }
}

/// What is said of a tokenizer that does not take every text.
pub open spec fn unfit() -> Seq<char> {
    "the tokenizer does not take every text"@
}

/// The rows of a text that go into the model: one of each for every token. A tokenizer that does
/// not take every text is not asked.
pub fn tokenize(tokenizer: &Tokenizer, text: &str) -> (r: Result<TokenRows, Error>)
    ensures
        match r {
            Ok(rows) => {
                &&& takes_every_text(*tokenizer)
                &&& encoded(*tokenizer, text@) == Ok::<(Seq<u32>, Seq<u32>), Seq<char>>(
                    (rows.ids@, rows.mask@),
                )
                &&& rows.mask@.len() == rows.ids@.len()
                &&& rows.kinds@ == Seq::new(rows.ids@.len(), |i: int| 0u32)
            },
            Err(e) => e matches Error::InferenceError(m) && if takes_every_text(*tokenizer) {
                encoded(*tokenizer, text@) matches Err(cause) && m@ == "tokenize: "@ + cause
            } else {
                m@ == "tokenize: "@ + unfit()
            },
        },
{
    if !is_fit(tokenizer) {
        return token_rows(Err("the tokenizer does not take every text".to_owned()));
    }
    token_rows(encode_text(tokenizer, text))
}

} // verus!
