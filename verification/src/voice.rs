//! Voice profiles and the settings that they imply.

use crate::float_bits::F32;
use crate::inference::options::{or_default, text_view, InferenceOptions};
use crate::inference::split::SplitMethod;
use crate::Language;
use vstd::prelude::*;

verus! {

/// What a voice profile says; it may leave out anything.
pub struct VoiceProfile {
    pub language: Option<String>,
    pub mode: Option<String>,
    pub split_sentences: Option<bool>,
    pub split_method: Option<SplitMethod>,
    pub min_sentence_chars: Option<usize>,
    pub sentence_gap_ms: Option<u32>,
    pub sentence_fade_ms: Option<u32>,
    pub sampling: InferenceOptionOverrides,
}

/// Sampling options that were chosen.
#[derive(Debug, Clone, Copy, PartialEq, Eq, Structural)]
pub struct InferenceOptionOverrides {
    pub top_k: Option<usize>,
    pub top_p: Option<F32>,
    pub temperature: Option<F32>,
    pub speed: Option<F32>,
    pub max_tokens: Option<usize>,
    pub repetition_penalty: Option<F32>,
}

impl Default for InferenceOptionOverrides {
    fn default() -> (r: Self)
        ensures
            r == (InferenceOptionOverrides {
                top_k: None,
                top_p: None,
                temperature: None,
                speed: None,
                max_tokens: None,
                repetition_penalty: None,
            }),
    {
        InferenceOptionOverrides {
            top_k: None,
            top_p: None,
            temperature: None,
            speed: None,
            max_tokens: None,
            repetition_penalty: None,
        }
    }
}

/// The settings of a voice.
pub struct VoiceDefaults {
    pub language: String,
    pub mode: String,
    pub split_sentences: bool,
    pub split_method: SplitMethod,
    pub min_sentence_chars: usize,
    pub sentence_gap_ms: u32,
    pub sentence_fade_ms: u32,
    pub top_k: usize,
    pub top_p: F32,
    pub temperature: F32,
    pub speed: F32,
    pub max_tokens: usize,
    pub repetition_penalty: F32,
}

impl VoiceDefaults {
    /// The settings of a profile, and the fallback's where it leaves them out.
    pub fn from_profile(profile: Option<&VoiceProfile>, fallback: VoiceDefaults) -> (r: Self)
        ensures
            match profile {
                None => r == fallback,
                Some(p) => {
                    &&& r.language@ == or_default(text_view(p.language), fallback.language@)
                    &&& r.mode@ == or_default(text_view(p.mode), fallback.mode@)
                    &&& r.split_sentences == or_default(
                        p.split_sentences,
                        fallback.split_sentences,
                    )
                    &&& r.split_method == or_default(p.split_method, fallback.split_method)
                    &&& r.min_sentence_chars == or_default(
                        p.min_sentence_chars,
                        fallback.min_sentence_chars,
                    )
                    &&& r.sentence_gap_ms == or_default(
                        p.sentence_gap_ms,
                        fallback.sentence_gap_ms,
                    )
                    &&& r.sentence_fade_ms == or_default(
                        p.sentence_fade_ms,
                        fallback.sentence_fade_ms,
                    )
                    &&& r.top_k == or_default(p.sampling.top_k, fallback.top_k)
                    &&& r.top_p == or_default(p.sampling.top_p, fallback.top_p)
                    &&& r.temperature == or_default(p.sampling.temperature, fallback.temperature)
                    &&& r.speed == or_default(p.sampling.speed, fallback.speed)
                    &&& r.max_tokens == or_default(p.sampling.max_tokens, fallback.max_tokens)
                    &&& r.repetition_penalty == or_default(
                        p.sampling.repetition_penalty,
                        fallback.repetition_penalty,
                    )
                },
            },
    {
        let p = match profile {
            None => {
                return fallback;
            },
            Some(p) => p,
        };
        VoiceDefaults {
            language: match &p.language {
                Some(s) => s.clone(),
                None => fallback.language,
            },
            mode: match &p.mode {
                Some(s) => s.clone(),
                None => fallback.mode,
            },
            split_sentences: match p.split_sentences {
                Some(v) => v,
                None => fallback.split_sentences,
            },
            split_method: match p.split_method {
                Some(v) => v,
                None => fallback.split_method,
            },
            min_sentence_chars: match p.min_sentence_chars {
                Some(v) => v,
                None => fallback.min_sentence_chars,
            },
            sentence_gap_ms: match p.sentence_gap_ms {
                Some(v) => v,
                None => fallback.sentence_gap_ms,
            },
            sentence_fade_ms: match p.sentence_fade_ms {
                Some(v) => v,
                None => fallback.sentence_fade_ms,
            },
            top_k: match p.sampling.top_k {
                Some(v) => v,
                None => fallback.top_k,
            },
            top_p: match p.sampling.top_p {
                Some(v) => v,
                None => fallback.top_p,
            },
            temperature: match p.sampling.temperature {
                Some(v) => v,
                None => fallback.temperature,
            },
            speed: match p.sampling.speed {
                Some(v) => v,
                None => fallback.speed,
            },
            max_tokens: match p.sampling.max_tokens {
                Some(v) => v,
                None => fallback.max_tokens,
            },
            repetition_penalty: match p.sampling.repetition_penalty {
                Some(v) => v,
                None => fallback.repetition_penalty,
            },
        }
    }

    /// The options of a request: what it chose, and the voice's settings for the rest.
    pub open spec fn options(
        &self,
        language: Language,
        overrides: InferenceOptionOverrides,
    ) -> InferenceOptions {
        InferenceOptions {
            top_k: or_default(overrides.top_k, self.top_k),
            top_p: or_default(overrides.top_p, self.top_p),
            temperature: or_default(overrides.temperature, self.temperature),
            speed: or_default(overrides.speed, self.speed),
            language,
            max_tokens: or_default(overrides.max_tokens, self.max_tokens),
            repetition_penalty: or_default(overrides.repetition_penalty, self.repetition_penalty),
            sv_embedding: None,
        }
    }

    /// The options of a request: what it chose, and the voice's settings for the rest.
    pub fn to_inference_options(&self, language: Language, overrides: InferenceOptionOverrides) -> (r:
        InferenceOptions)
        ensures
            r == self.options(language, overrides),
    {
        InferenceOptions {
            top_k: match overrides.top_k {
                Some(v) => v,
                None => self.top_k,
            },
            top_p: match overrides.top_p {
                Some(v) => v,
                None => self.top_p,
            },
            temperature: match overrides.temperature {
                Some(v) => v,
                None => self.temperature,
            },
            speed: match overrides.speed {
                Some(v) => v,
                None => self.speed,
            },
            language,
            max_tokens: match overrides.max_tokens {
                Some(v) => v,
                None => self.max_tokens,
            },
            repetition_penalty: match overrides.repetition_penalty {
                Some(v) => v,
                None => self.repetition_penalty,
            },
            sv_embedding: None,
        }
    }
}

/// Each option of a request is the one that it chose, else the voice's; the language is the one
/// that was found for it.
pub proof fn choices_win_over_voices(
    defaults: VoiceDefaults,
    language: Language,
    overrides: InferenceOptionOverrides,
    top_k: usize,
    max_tokens: usize,
    number: F32,
)
    ensures
        defaults.options(language, overrides).language == language,
        defaults.options(
            language,
            InferenceOptionOverrides { top_k: Some(top_k), ..overrides },
        ).top_k == top_k,
        defaults.options(language, InferenceOptionOverrides { top_k: None, ..overrides }).top_k
            == defaults.top_k,
        defaults.options(
            language,
            InferenceOptionOverrides { max_tokens: Some(max_tokens), ..overrides },
        ).max_tokens == max_tokens,
        defaults.options(
            language,
            InferenceOptionOverrides { max_tokens: None, ..overrides },
        ).max_tokens == defaults.max_tokens,
        defaults.options(
            language,
            InferenceOptionOverrides { top_p: Some(number), ..overrides },
        ).top_p == number,
        defaults.options(language, InferenceOptionOverrides { top_p: None, ..overrides }).top_p
            == defaults.top_p,
        defaults.options(
            language,
            InferenceOptionOverrides { temperature: Some(number), ..overrides },
        ).temperature == number,
        defaults.options(
            language,
            InferenceOptionOverrides { temperature: None, ..overrides },
        ).temperature == defaults.temperature,
        defaults.options(
            language,
            InferenceOptionOverrides { speed: Some(number), ..overrides },
        ).speed == number,
        defaults.options(language, InferenceOptionOverrides { speed: None, ..overrides }).speed
            == defaults.speed,
        defaults.options(
            language,
            InferenceOptionOverrides { repetition_penalty: Some(number), ..overrides },
        ).repetition_penalty == number,
        defaults.options(
            language,
            InferenceOptionOverrides { repetition_penalty: None, ..overrides },
        ).repetition_penalty == defaults.repetition_penalty,
{
}

} // verus!
