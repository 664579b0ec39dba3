//! Requests: their checks, and what they ask for.

use crate::inference::options::{text_view, InferenceOptions};
use crate::inference::split::SplitMethod;
use crate::strings::{chars_of, decimal, decimal_string, lowercase, trim, trimmed, views};
use crate::voice::{InferenceOptionOverrides, VoiceDefaults};
use crate::{language_named, Language};
use vstd::prelude::*;

verus! {

/// What is said of an empty field.
pub open spec fn must_not_be_empty(field: Seq<char>) -> Seq<char> {
    field + " must not be empty"@
}

/// Rejects text that is empty or white space.
pub fn validate_text(text: &str, field: &str) -> (r: Result<(), String>)
    ensures
        match r {
            Ok(_) => trimmed(text@).len() > 0,
            Err(e) => trimmed(text@).len() == 0 && e@ == must_not_be_empty(field@),
        },
{
    if trim(text).as_str().is_empty() {
        let mut message = field.to_owned();
        message.push_str(" must not be empty");
        Err(message)
    } else {
        Ok(())
    }
}

/// What is wrong with the text of a request: it is empty or too long.
pub open spec fn text_fault(text: Seq<char>, field: Seq<char>, max_chars: nat) -> Option<Seq<char>> {
    if trimmed(text).len() == 0 {
        Some(must_not_be_empty(field))
    } else if text.len() > max_chars {
        Some(
            field + " exceeds the "@ + decimal(max_chars) + " character limit ("@ + decimal(
                text.len(),
            ) + " received)"@,
        )
    } else {
        None
    }
}

/// Rejects text that is empty or too long.
pub fn validate_request_text(text: &str, field: &str, max_chars: usize) -> (r: Result<(), String>)
    ensures
        match r {
            Ok(_) => text_fault(text@, field@, max_chars as nat) is None,
            Err(e) => text_fault(text@, field@, max_chars as nat) == Some(e@),
        },
{
    match validate_text(text, field) {
        Ok(_) => {},
        Err(e) => {
            return Err(e);
        },
    }
    let chars: usize = chars_of(text).len();
    if chars > max_chars {
        let mut message = field.to_owned();
        message.push_str(" exceeds the ");
        message.push_str(decimal_string(max_chars as u64).as_str());
        message.push_str(" character limit (");
        message.push_str(decimal_string(chars as u64).as_str());
        message.push_str(" received)");
        Err(message)
    } else {
        Ok(())
    }
}

/// The name of an item of a batch.
pub open spec fn item_name(index: nat) -> Seq<char> {
    "texts["@ + decimal(index) + "]"@
}

/// What is wrong with the first wrong item from `i` on.
pub open spec fn first_item_fault(texts: Seq<Seq<char>>, i: nat, max_chars: nat) -> Option<Seq<char>>
    decreases texts.len() - i,
{
    if i >= texts.len() {
        None
    } else if text_fault(texts[i as int], item_name(i), max_chars) is Some {
        text_fault(texts[i as int], item_name(i), max_chars)
    } else {
        first_item_fault(texts, i + 1, max_chars)
    }
}

/// What is wrong with a batch: it has no items or too many, or an item is wrong.
pub open spec fn batch_fault(texts: Seq<Seq<char>>, max_items: nat, max_chars: nat) -> Option<
    Seq<char>,
> {
    if texts.len() == 0 {
        Some("texts array is empty"@)
    } else if texts.len() > max_items {
        Some(
            "texts exceeds the "@ + decimal(max_items) + " item limit ("@ + decimal(texts.len())
                + " received)"@,
        )
    } else {
        first_item_fault(texts, 0, max_chars)
    }
}

/// Rejects a batch that is empty or too large, or that holds a text that is empty or too long.
pub fn validate_batch(texts: &Vec<String>, max_items: usize, max_chars: usize) -> (r: Result<
    (),
    String,
>)
    ensures
        match r {
            Ok(_) => batch_fault(views(texts@), max_items as nat, max_chars as nat) is None,
            Err(e) => batch_fault(views(texts@), max_items as nat, max_chars as nat) == Some(e@),
        },
{
    let ghost all = views(texts@);
    if texts.len() == 0 {
        return Err("texts array is empty".to_owned());
    }
    if texts.len() > max_items {
        let mut message = "texts exceeds the ".to_owned();
        message.push_str(decimal_string(max_items as u64).as_str());
        message.push_str(" item limit (");
        message.push_str(decimal_string(texts.len() as u64).as_str());
        message.push_str(" received)");
        return Err(message);
    }
    for i in 0..texts.len()
        invariant
            all == views(texts@),
            0 < all.len() <= max_items,
            first_item_fault(all, i as nat, max_chars as nat) == first_item_fault(
                all,
                0,
                max_chars as nat,
            ),
    {
        assert(all[i as int] == texts@[i as int]@);
        let mut name = "texts[".to_owned();
        name.push_str(decimal_string(i as u64).as_str());
        name.push_str("]");
        match validate_request_text(texts[i].as_str(), name.as_str(), max_chars) {
            Ok(_) => {},
            Err(e) => {
                return Err(e);
            },
        }
    }
    Ok(())
}

/// The name of the voice that a request selects, if it selects one.
pub fn selected_voice(voice_name: Option<String>) -> (r: Option<String>)
    ensures
        text_view(r) == match voice_name {
            Some(name) => if trimmed(name@).len() > 0 {
                Some(trimmed(name@))
            } else {
                None
            },
            None => None,
        },
{
    match voice_name {
        Some(name) => {
            let name = trim(name.as_str());
            if name.as_str().is_empty() {
                None
            } else {
                Some(name)
            }
        },
        None => None,
    }
}

/// A voice that was loaded.
pub struct LoadedVoice {
    pub name: String,
    pub reference_audio: Option<String>,
    pub reference_text: Option<String>,
}

/// Which files a request may name.
#[derive(Debug, Clone, Copy)]
pub struct RequestPathPolicy {
    /// Whether reference audio may lie outside the directory of the voices.
    pub allow_external_reference_paths: bool,
}

impl RequestPathPolicy {
    /// Whether reference audio may be read: that of a voice may, and that which a request names
    /// where it lies in the directory of the voices or may lie outside it.
    pub open spec fn admits(&self, is_named: bool, is_inside: bool) -> bool {
        !is_named || is_inside || self.allow_external_reference_paths
    }

    /// Refuses reference audio that may not be read; whether the request names it, and whether it
    /// lies in the directory of the voices, are given.
    pub fn check(&self, path: &str, is_named: bool, is_inside: bool) -> (r: Result<(), String>)
        ensures
            match r {
                Ok(_) => self.admits(is_named, is_inside),
                Err(e) => !self.admits(is_named, is_inside) && e@
                    == "reference audio is outside the voices directory: "@ + path@,
            },
    {
        if !is_named || is_inside || self.allow_external_reference_paths {
            return Ok(());
        }
        let mut message = "reference audio is outside the voices directory: ".to_owned();
        message.push_str(path);
        Err(message)
    }
}

/// The reference audio of a request: its own, else the voice's.
pub open spec fn reference_of(own: Option<Seq<char>>, voice: Option<Seq<char>>) -> Option<Seq<char>> {
    match own {
        Some(s) => Some(s),
        None => voice,
    }
}

/// What a request asks for.
pub struct SynthesisRequest {
    pub text_language: Option<String>,
    pub refer_wav_path: Option<String>,
    pub prompt_text: Option<String>,
    pub overrides: InferenceOptionOverrides,
}

impl SynthesisRequest {
    /// The reference audio, which must be a file.
    pub open spec fn audio(&self, voice: Option<LoadedVoice>) -> Option<Seq<char>> {
        reference_of(
            text_view(self.refer_wav_path),
            match voice {
                Some(v) => text_view(v.reference_audio),
                None => None,
            },
        )
    }

    /// The reference text.
    pub open spec fn prompt(&self, voice: Option<LoadedVoice>) -> Option<Seq<char>> {
        reference_of(
            text_view(self.prompt_text),
            match voice {
                Some(v) => text_view(v.reference_text),
                None => None,
            },
        )
    }

    /// The name of the language.
    pub open spec fn language_text(&self, defaults: VoiceDefaults) -> Seq<char> {
        match text_view(self.text_language) {
            Some(s) => if trimmed(s).len() > 0 {
                trimmed(s)
            } else {
                defaults.language@
            },
            None => defaults.language@,
        }
    }

    /// What is wrong with the request; whether the reference audio is a file is given.
    pub open spec fn fault(
        &self,
        voice: Option<LoadedVoice>,
        defaults: VoiceDefaults,
        is_file: bool,
    ) -> Option<Seq<char>> {
        if language_named(lowercase(self.language_text(defaults))) is None {
            Some("unsupported text_language: "@ + self.language_text(defaults))
        } else if self.audio(voice) is None {
            Some(
                "reference audio is required; select a configured voice or pass refer_wav_path"@,
            )
        } else if !is_file {
            Some("reference audio not found: "@ + self.audio(voice)->0)
        } else if self.prompt(voice) is None || trimmed(self.prompt(voice)->0).len() == 0 {
            Some("reference text is required; select a configured voice or pass prompt_text"@)
        } else {
            None
        }
    }

    /// The reference audio of the request.
    pub fn reference_audio(&self, voice: &Option<LoadedVoice>) -> (r: Option<String>)
        ensures
            text_view(r) == self.audio(*voice),
    {
        if let Some(path) = &self.refer_wav_path {
            return Some(path.clone());
        }
        match voice {
            Some(v) => match &v.reference_audio {
                Some(path) => Some(path.clone()),
                None => None,
            },
            None => None,
        }
    }

    /// The reference text of the request.
    fn reference_text(&self, voice: &Option<LoadedVoice>) -> (r: Option<String>)
        ensures
            text_view(r) == self.prompt(*voice),
    {
        if let Some(text) = &self.prompt_text {
            return Some(text.clone());
        }
        match voice {
            Some(v) => match &v.reference_text {
                Some(text) => Some(text.clone()),
                None => None,
            },
            None => None,
        }
    }
}

/// A request with all settings found.
pub struct ResolvedSynthesis {
    pub voice: Option<String>,
    pub mode: String,
    pub language: Language,
    pub options: InferenceOptions,
    pub split_sentences: bool,
    pub split_method: SplitMethod,
    pub min_sentence_chars: usize,
    pub sentence_gap_ms: u32,
    pub sentence_fade_ms: u32,
    pub refer_path: String,
    pub prompt_text: String,
}

/// Finds all settings of a request: what it chose, else the voice's. `is_file` tells whether
/// the reference audio of the request is a file.
pub fn resolve_synthesis(
    request: &SynthesisRequest,
    voice: Option<LoadedVoice>,
    defaults: VoiceDefaults,
    is_file: bool,
) -> (r: Result<ResolvedSynthesis, String>)
    ensures
        match r {
            Ok(s) => {
                &&& request.fault(voice, defaults, is_file) is None
                &&& text_view(s.voice) == match voice {
                    Some(v) => Some(v.name@),
                    None => None,
                }
                &&& s.mode@ == defaults.mode@
                &&& language_named(lowercase(request.language_text(defaults))) == Some(s.language)
                &&& s.options == defaults.options(s.language, request.overrides)
                &&& s.split_sentences == defaults.split_sentences
                &&& s.split_method == defaults.split_method
                &&& s.min_sentence_chars == defaults.min_sentence_chars
                &&& s.sentence_gap_ms == defaults.sentence_gap_ms
                &&& s.sentence_fade_ms == defaults.sentence_fade_ms
                &&& request.audio(voice) == Some(s.refer_path@)
                &&& request.prompt(voice) == Some(s.prompt_text@)
            },
            Err(e) => request.fault(voice, defaults, is_file) == Some(e@),
        },
{
    let own_language = match &request.text_language {
        Some(s) => trim(s.as_str()),
        None => String::new(),
    };
    let language_text = if own_language.as_str().is_empty() {
        defaults.language.clone()
    } else {
        own_language
    };
    let language = match Language::parse(language_text.as_str()) {
        Some(l) => l,
        None => {
            let mut message = "unsupported text_language: ".to_owned();
            message.push_str(language_text.as_str());
            return Err(message);
        },
    };
    let refer_path = match request.reference_audio(&voice) {
        Some(p) => p,
        None => {
            return Err(
                "reference audio is required; select a configured voice or pass refer_wav_path".to_owned(),
            );
        },
    };
    if !is_file {
        let mut message = "reference audio not found: ".to_owned();
        message.push_str(refer_path.as_str());
        return Err(message);
    }
    let prompt_text = match request.reference_text(&voice) {
        Some(t) => t,
        None => {
            return Err(
                "reference text is required; select a configured voice or pass prompt_text".to_owned(),
            );
        },
    };
    if trim(prompt_text.as_str()).as_str().is_empty() {
        return Err(
            "reference text is required; select a configured voice or pass prompt_text".to_owned(),
        );
    }
    let options = defaults.to_inference_options(language, request.overrides);
    Ok(
        ResolvedSynthesis {
            voice: match voice {
                Some(v) => Some(v.name),
                None => None,
            },
            mode: defaults.mode,
            language,
            options,
            split_sentences: defaults.split_sentences,
            split_method: defaults.split_method,
            min_sentence_chars: defaults.min_sentence_chars,
            sentence_gap_ms: defaults.sentence_gap_ms,
            sentence_fade_ms: defaults.sentence_fade_ms,
            refer_path,
            prompt_text,
        },
    )
}

/// A text is accepted if and only if it holds more than white space and is no longer than the
/// limit, and a batch if and only if it holds texts, no more than the limit, and each of them is
/// accepted.
pub proof fn texts_are_accepted_within_limits(
    texts: Seq<Seq<char>>,
    field: Seq<char>,
    max_items: nat,
    max_chars: nat,
    i: int,
)
    requires
        0 <= i < texts.len(),
    ensures
        text_fault(texts[i], field, max_chars) is None <==> trimmed(texts[i]).len() > 0
            && texts[i].len() <= max_chars,
        batch_fault(texts, max_items, max_chars) is None ==> texts.len() <= max_items && trimmed(
            texts[i],
        ).len() > 0 && texts[i].len() <= max_chars,
        batch_fault(texts, max_items, max_chars) is Some ==> texts.len() > max_items || exists|
            j: int,
        |
            0 <= j < texts.len() && (trimmed(#[trigger] texts[j]).len() == 0 || texts[j].len()
                > max_chars),
        batch_fault(Seq::empty(), max_items, max_chars) is Some,
{
    lemma_first_item_fault(texts, 0, max_chars, i);
}

proof fn lemma_first_item_fault(texts: Seq<Seq<char>>, from: nat, max_chars: nat, i: int)
    ensures
        first_item_fault(texts, from, max_chars) is None && from <= i < texts.len() ==> trimmed(
            texts[i],
        ).len() > 0 && texts[i].len() <= max_chars,
        first_item_fault(texts, from, max_chars) is Some ==> exists|j: int|
            from <= j < texts.len() && (trimmed(#[trigger] texts[j]).len() == 0 || texts[j].len()
                > max_chars),
    decreases texts.len() - from,
{
    if from < texts.len() {
        lemma_first_item_fault(texts, from + 1, max_chars, i);
        if text_fault(texts[from as int], item_name(from), max_chars) is Some {
            assert(trimmed(texts[from as int]).len() == 0 || texts[from as int].len() > max_chars);
        }
    }
}

/// The first wrong item of a batch is the one that is named.
pub proof fn the_first_wrong_item_is_named(
    texts: Seq<Seq<char>>,
    max_items: nat,
    max_chars: nat,
    i: int,
)
    requires
        0 <= i < texts.len() <= max_items,
        trimmed(texts[i]).len() == 0 || texts[i].len() > max_chars,
        forall|j: int|
            0 <= j < i ==> trimmed(#[trigger] texts[j]).len() > 0 && texts[j].len() <= max_chars,
    ensures
        batch_fault(texts, max_items, max_chars) == text_fault(
            texts[i],
            "texts["@ + decimal(i as nat) + "]"@,
            max_chars,
        ),
{
    lemma_skips_right_items(texts, 0, max_chars, i);
}

proof fn lemma_skips_right_items(texts: Seq<Seq<char>>, from: nat, max_chars: nat, i: int)
    requires
        from <= i < texts.len(),
        forall|j: int|
            from <= j < i ==> trimmed(#[trigger] texts[j]).len() > 0 && texts[j].len() <= max_chars,
        trimmed(texts[i]).len() == 0 || texts[i].len() > max_chars,
    ensures
        first_item_fault(texts, from, max_chars) == text_fault(
            texts[i],
            item_name(i as nat),
            max_chars,
        ),
    decreases i - from,
{
    if from < i {
        assert(trimmed(texts[from as int]).len() > 0);
        lemma_skips_right_items(texts, from + 1, max_chars, i);
    }
}

/// What a request names itself wins over what its voice has, and a request that names neither
/// has none.
pub proof fn requests_win_over_voices(own: Seq<char>, voice: Option<Seq<char>>)
    ensures
        reference_of(Some(own), voice) == Some(own),
        reference_of(None, voice) == voice,
{
}

/// A request is taken if and only if its language is known, it or its voice has reference audio
/// that is a file, and it or its voice has a reference text of more than white space.
pub proof fn requests_need_a_reference(
    request: SynthesisRequest,
    voice: Option<LoadedVoice>,
    defaults: VoiceDefaults,
    is_file: bool,
)
    ensures
        request.fault(voice, defaults, is_file) is None <==> language_named(
            lowercase(request.language_text(defaults)),
        ) is Some && request.audio(voice) is Some && is_file && request.prompt(voice) is Some
            && trimmed(request.prompt(voice)->0).len() > 0,
        request.refer_wav_path matches Some(path) ==> request.audio(voice) == Some(path@),
        request.refer_wav_path is None && voice is None ==> request.audio(voice) is None,
        request.prompt_text matches Some(text) ==> request.prompt(voice) == Some(text@),
        request.text_language is None ==> request.language_text(defaults) == defaults.language@,
{
}

/// Reference audio is refused only where a request names it, it lies outside the directory of the
/// voices, and no such audio is allowed.
pub proof fn outside_audio_is_refused(
    policy: RequestPathPolicy,
    is_named: bool,
    is_inside: bool,
)
    ensures
        !policy.admits(is_named, is_inside) <==> is_named && !is_inside
            && !policy.allow_external_reference_paths,
{
}

} // verus!
