//! Inference options and their builder.

use crate::float_bits::{is_nan, less, F32};
use crate::Language;
use vstd::prelude::*;

verus! {

/// Inference options.
pub struct InferenceOptions {
    pub top_k: usize,
    pub top_p: F32,
    pub temperature: F32,
    pub speed: F32,
    pub language: Language,
    pub max_tokens: usize,
    pub repetition_penalty: F32,
    pub sv_embedding: Option<String>,
}

/// An optional text by its view.
pub open spec fn text_view(s: Option<String>) -> Option<Seq<char>> {
    match s {
        Some(t) => Some(t@),
        None => None,
    }
}

impl InferenceOptions {
    /// Whether two sets of options are the same.
    pub open spec fn same_as(&self, other: &InferenceOptions) -> bool {
        &&& self.top_k == other.top_k
        &&& self.top_p == other.top_p
        &&& self.temperature == other.temperature
        &&& self.speed == other.speed
        &&& self.language == other.language
        &&& self.max_tokens == other.max_tokens
        &&& self.repetition_penalty == other.repetition_penalty
        &&& text_view(self.sv_embedding) == text_view(other.sv_embedding)
    }

    /// A builder with nothing chosen.
    pub fn builder() -> (r: InferenceOptionsBuilder)
        ensures
            r == unset_options(),
    {
        InferenceOptionsBuilder {
            top_k: None,
            top_p: None,
            temperature: None,
            speed: None,
            language: None,
            max_tokens: None,
            repetition_penalty: None,
            sv_embedding: None,
        }
    }
}

impl Default for InferenceOptions {
    /// Top 15 and 0.95, temperature 0.8, speed 1, Chinese, 500 tokens, repetition penalty 1.35.
    fn default() -> (r: Self)
        ensures
            r == default_options(),
    {
        InferenceOptions {
            top_k: 15,
            top_p: F32 { bits: 0x3F73_3333 },
            temperature: F32 { bits: 0x3F4C_CCCD },
            speed: F32 { bits: 0x3F80_0000 },
            language: Language::Chinese,
            max_tokens: 500,
            repetition_penalty: F32 { bits: 0x3FAC_CCCD },
            sv_embedding: None,
        }
    }
}

impl Clone for InferenceOptions {
    fn clone(&self) -> (r: Self)
        ensures
            r.same_as(self),
    {
        InferenceOptions {
            top_k: self.top_k,
            top_p: self.top_p,
            temperature: self.temperature,
            speed: self.speed,
            language: self.language,
            max_tokens: self.max_tokens,
            repetition_penalty: self.repetition_penalty,
            sv_embedding: match &self.sv_embedding {
                Some(s) => Some(s.clone()),
                None => None,
            },
        }
    }
}

/// The options where nothing is chosen.
pub open spec fn default_options() -> InferenceOptions {
    InferenceOptions {
        top_k: 15,
        top_p: F32 { bits: 0x3F73_3333 },
        temperature: F32 { bits: 0x3F4C_CCCD },
        speed: F32 { bits: 0x3F80_0000 },
        language: Language::Chinese,
        max_tokens: 500,
        repetition_penalty: F32 { bits: 0x3FAC_CCCD },
        sv_embedding: None,
    }
}

/// Builder of inference options.
pub struct InferenceOptionsBuilder {
    pub top_k: Option<usize>,
    pub top_p: Option<F32>,
    pub temperature: Option<F32>,
    pub speed: Option<F32>,
    pub language: Option<Language>,
    pub max_tokens: Option<usize>,
    pub repetition_penalty: Option<F32>,
    pub sv_embedding: Option<String>,
}

/// The builder with nothing chosen.
pub open spec fn unset_options() -> InferenceOptionsBuilder {
    InferenceOptionsBuilder {
        top_k: None,
        top_p: None,
        temperature: None,
        speed: None,
        language: None,
        max_tokens: None,
        repetition_penalty: None,
        sv_embedding: None,
    }
}

/// The value, or the default where there is none.
pub open spec fn or_default<T>(value: Option<T>, default: T) -> T {
    match value {
        Some(v) => v,
        None => default,
    }
}

impl InferenceOptionsBuilder {
    pub fn top_k(self, k: usize) -> (r: Self)
        ensures
            r == (InferenceOptionsBuilder { top_k: Some(k), ..self }),
    {
        let mut b = self;
        b.top_k = Some(k);
        b
    }

    pub fn top_p(self, p: F32) -> (r: Self)
        ensures
            r == (InferenceOptionsBuilder { top_p: Some(p), ..self }),
    {
        let mut b = self;
        b.top_p = Some(p);
        b
    }

    pub fn temperature(self, t: F32) -> (r: Self)
        ensures
            r == (InferenceOptionsBuilder { temperature: Some(t), ..self }),
    {
        let mut b = self;
        b.temperature = Some(t);
        b
    }

    pub fn speed(self, s: F32) -> (r: Self)
        ensures
            r == (InferenceOptionsBuilder { speed: Some(s), ..self }),
    {
        let mut b = self;
        b.speed = Some(s);
        b
    }

    pub fn language(self, lang: Language) -> (r: Self)
        ensures
            r == (InferenceOptionsBuilder { language: Some(lang), ..self }),
    {
        let mut b = self;
        b.language = Some(lang);
        b
    }

    pub fn max_tokens(self, n: usize) -> (r: Self)
        ensures
            r == (InferenceOptionsBuilder { max_tokens: Some(n), ..self }),
    {
        let mut b = self;
        b.max_tokens = Some(n);
        b
    }

    pub fn repetition_penalty(self, p: F32) -> (r: Self)
        ensures
            r == (InferenceOptionsBuilder { repetition_penalty: Some(p), ..self }),
    {
        let mut b = self;
        b.repetition_penalty = Some(p);
        b
    }

    pub fn sv_embedding(self, path: String) -> (r: Self)
        ensures
            r == (InferenceOptionsBuilder { sv_embedding: Some(path), ..self }),
    {
        let mut b = self;
        b.sv_embedding = Some(path);
        b
    }

    /// The options: what was chosen, and the defaults for the rest.
    pub fn build(self) -> (r: InferenceOptions)
        ensures
            r == (InferenceOptions {
                top_k: or_default(self.top_k, default_options().top_k),
                top_p: or_default(self.top_p, default_options().top_p),
                temperature: or_default(self.temperature, default_options().temperature),
                speed: or_default(self.speed, default_options().speed),
                language: or_default(self.language, default_options().language),
                max_tokens: or_default(self.max_tokens, default_options().max_tokens),
                repetition_penalty: or_default(
                    self.repetition_penalty,
                    default_options().repetition_penalty,
                ),
                sv_embedding: self.sv_embedding,
            }),
    {
        InferenceOptions {
            top_k: match self.top_k {
                Some(v) => v,
                None => 15,
            },
            top_p: match self.top_p {
                Some(v) => v,
                None => F32 { bits: 0x3F73_3333 },
            },
            temperature: match self.temperature {
                Some(v) => v,
                None => F32 { bits: 0x3F4C_CCCD },
            },
            speed: match self.speed {
                Some(v) => v,
                None => F32 { bits: 0x3F80_0000 },
            },
            language: match self.language {
                Some(v) => v,
                None => Language::Chinese,
            },
            max_tokens: match self.max_tokens {
                Some(v) => v,
                None => 500,
            },
            repetition_penalty: match self.repetition_penalty {
                Some(v) => v,
                None => F32 { bits: 0x3FAC_CCCD },
            },
            sv_embedding: self.sv_embedding,
        }
    }
}

/// Temperature that a retry does not exceed: 0.65.
pub const CHUNK_RETRY_TEMPERATURE: u32 = 0x3F26_6666;

/// Nucleus that a retry does not exceed: 0.85.
pub const CHUNK_RETRY_TOP_P: u32 = 0x3F59_999A;

/// Number of tokens that a retry may generate at least.
pub const CHUNK_RETRY_MIN_MAX_TOKENS: usize = 800;

/// The smaller of two numbers; the limit where the value is no number.
pub open spec fn at_most(value: F32, limit: F32) -> F32 {
    if is_nan(value) || less(limit, value) {
        limit
    } else {
        value
    }
}

/// The options for a second try: less random sampling and room for more tokens.
pub fn conservative_retry_options(options: &InferenceOptions) -> (r: InferenceOptions)
    ensures
        r.same_as(
            &(InferenceOptions {
                temperature: at_most(options.temperature, F32 { bits: CHUNK_RETRY_TEMPERATURE }),
                top_p: at_most(options.top_p, F32 { bits: CHUNK_RETRY_TOP_P }),
                max_tokens: if options.max_tokens < CHUNK_RETRY_MIN_MAX_TOKENS {
                    CHUNK_RETRY_MIN_MAX_TOKENS
                } else {
                    options.max_tokens
                },
                ..*options
            }),
        ),
        !less(F32 { bits: 0x3F26_6666 }, r.temperature),
        !less(F32 { bits: 0x3F59_999A }, r.top_p),
        r.max_tokens >= 800,
        r.max_tokens >= options.max_tokens,
        r.max_tokens == 800 || r.max_tokens == options.max_tokens,
{
    let mut retry = options.clone();
    retry.temperature = retry.temperature.min(F32 { bits: CHUNK_RETRY_TEMPERATURE });
    retry.top_p = retry.top_p.min(F32 { bits: CHUNK_RETRY_TOP_P });
    if retry.max_tokens < CHUNK_RETRY_MIN_MAX_TOKENS {
        retry.max_tokens = CHUNK_RETRY_MIN_MAX_TOKENS;
    }
    retry
}

/// Retrying is settled after one step: the options of a second retry are those of the first.
pub proof fn retry_options_settle(value: F32, limit: F32)
    requires
        !is_nan(limit),
    ensures
        at_most(at_most(value, limit), limit) == at_most(value, limit),
{
}

/// A limited number is the number or the limit: the number where it is not above the limit, and
/// the limit where it is, or where it is no number.
pub proof fn limits_are_kept(value: F32, limit: F32)
    requires
        !is_nan(limit),
    ensures
        !is_nan(at_most(value, limit)),
        !less(limit, at_most(value, limit)),
        !is_nan(value) && !less(limit, value) ==> at_most(value, limit) == value,
        less(limit, value) || is_nan(value) ==> at_most(value, limit) == limit,
{
}

} // verus!
