//! The command line: what to do, with which models, references and settings.

use crate::inference::options::{or_default, text_view, InferenceOptions};
use crate::inference::split::{method_named, SplitMethod};
use crate::model_paths::{ModelPathOverrides, ModelPaths};
use crate::strings::{
    ascii_lowered, lowercase, number_in, parse_number, views,
};
use crate::voice::{InferenceOptionOverrides, VoiceDefaults};
use crate::{language_named, Language};
use vstd::prelude::*;

verus! {

/// The arguments of the command line.
pub struct Args {
    pub text: Option<String>,
    pub voice: Option<String>,
    pub voices_dir: String,
    pub list_voices: bool,
    pub doctor: bool,
    pub inspect: Option<String>,
    pub gpt_model: Option<String>,
    pub models_dir: String,
    pub sovits_model: Option<String>,
    pub bigvgan_model: Option<String>,
    pub bert_model: Option<String>,
    pub hubert_model: Option<String>,
    pub reference_audio: Option<String>,
    pub reference_text: Option<String>,
    pub sv_embedding: Option<String>,
    pub language: Option<String>,
    pub sampling: InferenceOptionOverrides,
    pub mode: Option<String>,
    pub split_sentences: bool,
    pub no_split_sentences: bool,
    pub split_method: Option<String>,
    pub min_sentence_chars: Option<usize>,
    pub sentence_gap_ms: Option<u32>,
    pub sentence_fade_ms: Option<u32>,
    pub http: bool,
}

/// What the program is asked to do.
#[derive(Debug, Clone, Copy, PartialEq, Eq, Structural)]
pub enum Startup {
    /// Show what a model file holds.
    Inspect,
    /// List the voices.
    ListVoices,
    /// Check the setup.
    Doctor,
    /// Serve requests.
    Serve,
    /// Speak a text.
    Speak,
}

/// What the program is asked to do: the first of these that was asked for.
pub open spec fn startup_of(args: Args) -> Startup {
    if args.inspect is Some {
        Startup::Inspect
    } else if args.list_voices {
        Startup::ListVoices
    } else if args.doctor {
        Startup::Doctor
    } else if args.http {
        Startup::Serve
    } else {
        Startup::Speak
    }
}

/// What the program is asked to do.
pub fn startup(args: &Args) -> (r: Startup)
    ensures
        r == startup_of(*args),
{
    if args.inspect.is_some() {
        Startup::Inspect
    } else if args.list_voices {
        Startup::ListVoices
    } else if args.doctor {
        Startup::Doctor
    } else if args.http {
        Startup::Serve
    } else {
        Startup::Speak
    }
}

/// The lines that list the voices of a directory.
pub fn voice_lines(voices_dir: &str, voices: Vec<String>) -> (r: Vec<String>)
    ensures
        views(r@) == if voices@.len() == 0 {
            seq!["No voices found in "@ + voices_dir@]
        } else {
            views(voices@)
        },
{
    if voices.len() == 0 {
        let mut line = "No voices found in ".to_owned();
        line.push_str(voices_dir);
        let mut r: Vec<String> = Vec::new();
        r.push(line);
        assert(views(r@) =~= seq!["No voices found in "@ + voices_dir@]);
        r
    } else {
        voices
    }
}

/// What is said when a text is missing.
pub open spec fn text_required() -> Seq<char> {
    "Error: --text is required in CLI mode\nUsage: gpt-sovits --voice <VOICE> --text <TEXT> [OPTIONS]\n       gpt-sovits --http [OPTIONS]"@
}

/// What is said of a language that is not supported.
pub open spec fn unsupported_language(name: Seq<char>) -> Seq<char> {
    "Unsupported language '"@ + name + "'; expected zh, en, ja, ko, yue, or auto"@
}

/// What is said of a language that is not supported.
fn language_error(name: &str) -> (r: String)
    ensures
        r@ == unsupported_language(name@),
{
    let mut r = "Unsupported language '".to_owned();
    r.push_str(name);
    r.push_str("'; expected zh, en, ja, ko, yue, or auto");
    r
}

/// What is wrong with the arguments, before anything is loaded.
pub open spec fn arguments_fault(args: Args) -> Option<Seq<char>> {
    if !args.http && args.text is None {
        Some(text_required())
    } else {
        match text_view(args.language) {
            Some(name) => if language_named(lowercase(name)) is None {
                Some(unsupported_language(name))
            } else {
                None
            },
            None => None,
        }
    }
}

/// Checks the arguments, before anything is loaded.
pub fn check_arguments(args: &Args) -> (r: Result<(), String>)
    ensures
        match r {
            Ok(_) => arguments_fault(*args) is None,
            Err(e) => arguments_fault(*args) == Some(e@),
        },
{
    if !args.http && args.text.is_none() {
        return Err(
            "Error: --text is required in CLI mode\nUsage: gpt-sovits --voice <VOICE> --text <TEXT> [OPTIONS]\n       gpt-sovits --http [OPTIONS]".to_owned(),
        );
    }
    match &args.language {
        Some(name) => {
            if Language::parse(name.as_str()).is_none() {
                return Err(language_error(name.as_str()));
            }
        },
        None => {},
    }
    Ok(())
}

/// What was given, else what the voice has.
pub open spec fn own_or_voice(own: Option<String>, voice: Option<String>) -> Option<Seq<char>> {
    match own {
        Some(s) => Some(s@),
        None => text_view(voice),
    }
}

/// What was given, else what the voice has.
fn pick_own(own: &Option<String>, voice: &Option<String>) -> (r: Option<String>)
    ensures
        text_view(r) == own_or_voice(*own, *voice),
{
    match own {
        Some(s) => Some(s.clone()),
        None => match voice {
            Some(s) => Some(s.clone()),
            None => None,
        },
    }
}

/// The models that a voice comes with.
pub struct VoiceModels {
    pub gpt: Option<String>,
    pub sovits: Option<String>,
    pub bigvgan: Option<String>,
}

/// The vocoder that is loaded: the one that was given, else the voice's.
pub fn bigvgan_model(args: &Args, voice: &VoiceModels) -> (r: Option<String>)
    ensures
        text_view(r) == own_or_voice(args.bigvgan_model, voice.bigvgan),
{
    pick_own(&args.bigvgan_model, &voice.bigvgan)
}

/// A vocoder that was chosen must be a file.
pub fn check_bigvgan(path: &Option<String>, is_file: bool) -> (r: Result<(), String>)
    ensures
        match r {
            Ok(_) => path is None || is_file,
            Err(e) => path is Some && !is_file && e@ == "BigVGAN model file does not exist: "@
                + path->0@,
        },
{
    match path {
        Some(p) => {
            if is_file {
                Ok(())
            } else {
                let mut e = "BigVGAN model file does not exist: ".to_owned();
                e.push_str(p.as_str());
                Err(e)
            }
        },
        None => Ok(()),
    }
}

/// The model paths that were chosen; a voice may choose the acoustic models.
pub fn model_overrides(args: &Args, voice: &VoiceModels) -> (r: ModelPathOverrides)
    ensures
        text_view(r.gpt) == own_or_voice(args.gpt_model, voice.gpt),
        text_view(r.sovits) == own_or_voice(args.sovits_model, voice.sovits),
        text_view(r.bert) == text_view(args.bert_model),
        text_view(r.hubert) == text_view(args.hubert_model),
{
    ModelPathOverrides {
        gpt: pick_own(&args.gpt_model, &voice.gpt),
        sovits: pick_own(&args.sovits_model, &voice.sovits),
        bert: pick_own(&args.bert_model, &None),
        hubert: pick_own(&args.hubert_model, &None),
    }
}

/// A model that is loaded.
#[derive(Debug, Clone, Copy, PartialEq, Eq, Structural)]
pub enum ModelRole {
    Gpt,
    Sovits,
    BigVgan,
    Bert,
    Hubert,
}

/// The name of a model in messages.
pub open spec fn role_name(role: ModelRole) -> Seq<char> {
    match role {
        ModelRole::Gpt => "GPT"@,
        ModelRole::Sovits => "SoVITS"@,
        ModelRole::BigVgan => "BigVGAN"@,
        ModelRole::Bert => "BERT"@,
        ModelRole::Hubert => "Hubert"@,
    }
}

/// Whether speaking goes on without a model that cannot be loaded.
pub open spec fn is_optional(role: ModelRole) -> bool {
    role is Bert || role is Hubert
}

/// The models to load, in their order, each with its path.
pub open spec fn loads(paths: ModelPaths, bigvgan: Option<String>) -> Seq<(ModelRole, Seq<char>)> {
    seq![(ModelRole::Gpt, paths.gpt@), (ModelRole::Sovits, paths.sovits@)] + (match bigvgan {
        Some(p) => seq![(ModelRole::BigVgan, p@)],
        None => Seq::empty(),
    }) + (match paths.bert {
        Some(p) => seq![(ModelRole::Bert, p@)],
        None => Seq::empty(),
    }) + (match paths.hubert {
        Some(p) => seq![(ModelRole::Hubert, p@)],
        None => Seq::empty(),
    })
}

/// Loads by their views.
pub open spec fn loads_view(plan: Seq<(ModelRole, String)>) -> Seq<(ModelRole, Seq<char>)> {
    plan.map_values(|l: (ModelRole, String)| (l.0, l.1@))
}

/// The models to load, in their order, each with its path.
pub fn load_plan(paths: &ModelPaths, bigvgan: &Option<String>) -> (r: Vec<(ModelRole, String)>)
    ensures
        loads_view(r@) == loads(*paths, *bigvgan),
{
    let mut r: Vec<(ModelRole, String)> = Vec::new();
    r.push((ModelRole::Gpt, paths.gpt.clone()));
    r.push((ModelRole::Sovits, paths.sovits.clone()));
    match bigvgan {
        Some(p) => r.push((ModelRole::BigVgan, p.clone())),
        None => {},
    }
    match &paths.bert {
        Some(p) => r.push((ModelRole::Bert, p.clone())),
        None => {},
    }
    match &paths.hubert {
        Some(p) => r.push((ModelRole::Hubert, p.clone())),
        None => {},
    }
    assert(loads_view(r@) =~= loads(*paths, *bigvgan));
    r
}

/// What is said when a model cannot be loaded, and whether the program ends there.
pub fn load_failure(role: ModelRole, error: &str) -> (r: (String, bool))
    ensures
        r.0@ == "Failed to load "@ + role_name(role) + " model: "@ + error@,
        r.1 == !is_optional(role),
{
    let (name, stops) = match role {
        ModelRole::Gpt => ("GPT", true),
        ModelRole::Sovits => ("SoVITS", true),
        ModelRole::BigVgan => ("BigVGAN", true),
        ModelRole::Bert => ("BERT", false),
        ModelRole::Hubert => ("Hubert", false),
    };
    let mut message = "Failed to load ".to_owned();
    message.push_str(name);
    message.push_str(" model: ");
    message.push_str(error);
    (message, stops)
}

/// What is said of optional models that are missing.
pub fn missing_models(paths: &ModelPaths) -> (r: Vec<String>)
    ensures
        views(r@) == (if paths.bert is None {
            seq!["BERT model not found; speech quality will be reduced"@]
        } else {
            Seq::empty()
        }) + (if paths.hubert is None {
            seq!["HuBERT model not found; voice similarity will be reduced"@]
        } else {
            Seq::empty()
        }),
{
    let mut r: Vec<String> = Vec::new();
    if paths.bert.is_none() {
        r.push("BERT model not found; speech quality will be reduced".to_owned());
    }
    if paths.hubert.is_none() {
        r.push("HuBERT model not found; voice similarity will be reduced".to_owned());
    }
    assert(views(r@) =~= (if paths.bert is None {
        seq!["BERT model not found; speech quality will be reduced"@]
    } else {
        Seq::empty()
    }) + (if paths.hubert is None {
        seq!["HuBERT model not found; voice similarity will be reduced"@]
    } else {
        Seq::empty()
    }));
    r
}

/// What a voice has to be spoken with.
pub struct VoiceReference {
    pub reference_audio: Option<String>,
    pub reference_text: Option<String>,
    pub sv_embedding: Option<String>,
}

/// The reference audio: the one that was given, else the voice's.
pub fn resolve_reference_audio(args: &Args, voice: &VoiceReference) -> (r: Option<String>)
    ensures
        text_view(r) == own_or_voice(args.reference_audio, voice.reference_audio),
{
    pick_own(&args.reference_audio, &voice.reference_audio)
}

/// The reference text: the one that was given, else the voice's.
pub fn resolve_reference_text(args: &Args, voice: &VoiceReference) -> (r: Option<String>)
    ensures
        text_view(r) == own_or_voice(args.reference_text, voice.reference_text),
{
    pick_own(&args.reference_text, &voice.reference_text)
}

/// The speaker embedding: the one that was given, else the voice's.
pub fn resolve_sv_embedding(args: &Args, voice: &VoiceReference) -> (r: Option<String>)
    ensures
        text_view(r) == own_or_voice(args.sv_embedding, voice.sv_embedding),
{
    pick_own(&args.sv_embedding, &voice.sv_embedding)
}

/// What a text is spoken with.
pub struct References {
    pub audio: String,
    pub text: String,
    pub sv_embedding: Option<String>,
}

/// What is wrong with what a text is to be spoken with; whether the speaker embedding is a file
/// is given.
pub open spec fn references_fault(args: Args, voice: VoiceReference, sv_is_file: bool) -> Option<
    Seq<char>,
> {
    let sv = own_or_voice(args.sv_embedding, voice.sv_embedding);
    if own_or_voice(args.reference_audio, voice.reference_audio) is None {
        Some(
            "Error: --reference-audio is required in CLI mode unless --voice provides reference_audio"@,
        )
    } else if own_or_voice(args.reference_text, voice.reference_text) is None {
        Some(
            "Error: --reference-text is required in CLI mode unless --voice provides reference_text"@,
        )
    } else if sv is Some && !sv_is_file {
        Some("Error: --sv-embedding file does not exist: "@ + sv->0)
    } else {
        None
    }
}

/// Finds what a text is spoken with.
pub fn resolve_references(args: &Args, voice: &VoiceReference, sv_is_file: bool) -> (r: Result<
    References,
    String,
>)
    ensures
        match r {
            Ok(found) => {
                &&& references_fault(*args, *voice, sv_is_file) is None
                &&& Some(found.audio@) == own_or_voice(args.reference_audio, voice.reference_audio)
                &&& Some(found.text@) == own_or_voice(args.reference_text, voice.reference_text)
                &&& text_view(found.sv_embedding) == own_or_voice(
                    args.sv_embedding,
                    voice.sv_embedding,
                )
            },
            Err(e) => references_fault(*args, *voice, sv_is_file) == Some(e@),
        },
{
    let audio = match resolve_reference_audio(args, voice) {
        Some(audio) => audio,
        None => return Err(
            "Error: --reference-audio is required in CLI mode unless --voice provides reference_audio".to_owned(),
        ),
    };
    let text = match resolve_reference_text(args, voice) {
        Some(text) => text,
        None => return Err(
            "Error: --reference-text is required in CLI mode unless --voice provides reference_text".to_owned(),
        ),
    };
    let sv_embedding = resolve_sv_embedding(args, voice);
    if !sv_is_file {
        match &sv_embedding {
            Some(path) => {
                let mut e = "Error: --sv-embedding file does not exist: ".to_owned();
                e.push_str(path.as_str());
                return Err(e);
            },
            None => {},
        }
    }
    Ok(References { audio, text, sv_embedding })
}

/// How a text is spoken.
pub struct Settings {
    pub mode: String,
    pub split_sentences: bool,
    pub split_method: SplitMethod,
    pub min_sentence_chars: usize,
    pub sentence_gap_ms: u32,
    pub sentence_fade_ms: u32,
    pub options: InferenceOptions,
}

/// The name of the language: the one that was given, else the voice's.
pub open spec fn language_text(args: Args, defaults: VoiceDefaults) -> Seq<char> {
    or_default(text_view(args.language), defaults.language@)
}

/// The method of splitting: the one that was given, where it is known, else the voice's.
pub open spec fn split_method_of(args: Args, defaults: VoiceDefaults) -> SplitMethod {
    match text_view(args.split_method) {
        Some(name) => or_default(method_named(ascii_lowered(name)), defaults.split_method),
        None => defaults.split_method,
    }
}

/// The settings are those that were given, and the voice's for the rest.
pub open spec fn settings_match(
    args: Args,
    defaults: VoiceDefaults,
    sv_embedding: Option<String>,
    s: Settings,
) -> bool {
    &&& s.mode@ == or_default(text_view(args.mode), defaults.mode@)
    &&& s.split_sentences == (!args.no_split_sentences && (args.split_sentences
        || defaults.split_sentences))
    &&& s.split_method == split_method_of(args, defaults)
    &&& s.min_sentence_chars == or_default(args.min_sentence_chars, defaults.min_sentence_chars)
    &&& s.sentence_gap_ms == or_default(args.sentence_gap_ms, defaults.sentence_gap_ms)
    &&& s.sentence_fade_ms == or_default(args.sentence_fade_ms, defaults.sentence_fade_ms)
    &&& language_named(lowercase(language_text(args, defaults))) == Some(s.options.language)
    &&& s.options == (InferenceOptions {
        sv_embedding,
        ..defaults.options(s.options.language, args.sampling)
    })
}

/// Finds how a text is spoken.
pub fn resolve_settings(args: &Args, defaults: &VoiceDefaults, sv_embedding: Option<String>) -> (r:
    Result<Settings, String>)
    ensures
        match r {
            Ok(s) => settings_match(*args, *defaults, sv_embedding, s),
            Err(e) => language_named(lowercase(language_text(*args, *defaults))) is None && e@
                == unsupported_language(language_text(*args, *defaults)),
        },
{
    let name = match &args.language {
        Some(s) => s.clone(),
        None => defaults.language.clone(),
    };
    let language = match Language::parse(name.as_str()) {
        Some(language) => language,
        None => return Err(language_error(name.as_str())),
    };
    let split_method = match &args.split_method {
        Some(s) => match SplitMethod::parse(s.as_str()) {
            Some(method) => method,
            None => defaults.split_method,
        },
        None => defaults.split_method,
    };
    let mut options = defaults.to_inference_options(language, args.sampling);
    options.sv_embedding = sv_embedding;
    Ok(
        Settings {
            mode: match &args.mode {
                Some(s) => s.clone(),
                None => defaults.mode.clone(),
            },
            split_sentences: if args.no_split_sentences {
                false
            } else {
                args.split_sentences || defaults.split_sentences
            },
            split_method,
            min_sentence_chars: match args.min_sentence_chars {
                Some(v) => v,
                None => defaults.min_sentence_chars,
            },
            sentence_gap_ms: match args.sentence_gap_ms {
                Some(v) => v,
                None => defaults.sentence_gap_ms,
            },
            sentence_fade_ms: match args.sentence_fade_ms {
                Some(v) => v,
                None => defaults.sentence_fade_ms,
            },
            options,
        },
    )
}

/// Reads a number of at least 1.
pub fn parse_positive_usize(value: &str) -> (r: Result<usize, String>)
    ensures
        match r {
            Ok(n) => n > 0 && number_in(value@) == Some(n as nat),
            Err(e) => match number_in(value@) {
                Some(n) => if n == 0 {
                    e@ == "value must be at least 1"@
                } else {
                    n > usize::MAX && e@ == "expected a positive integer, got '"@ + value@ + "'"@
                },
                None => e@ == "expected a positive integer, got '"@ + value@ + "'"@,
            },
        },
{
    match parse_number(value) {
        Some(n) => {
            if n == 0 {
                Err("value must be at least 1".to_owned())
            } else {
                Ok(n)
            }
        },
        None => {
            let mut e = "expected a positive integer, got '".to_owned();
            e.push_str(value);
            e.push_str("'");
            Err(e)
        },
    }
}

/// The GPT and the SoVITS model are loaded first, in this order, and each other model if and only
/// if there is a path to it.
pub proof fn models_are_loaded_in_order(paths: ModelPaths, bigvgan: Option<String>, i: int)
    ensures
        loads(paths, bigvgan)[0] == (ModelRole::Gpt, paths.gpt@),
        loads(paths, bigvgan)[1] == (ModelRole::Sovits, paths.sovits@),
        0 <= i < loads(paths, bigvgan).len() ==> match loads(paths, bigvgan)[i].0 {
            ModelRole::Gpt => i == 0,
            ModelRole::Sovits => i == 1,
            ModelRole::BigVgan => i == 2 && bigvgan is Some && loads(paths, bigvgan)[i].1
                == bigvgan->0@,
            ModelRole::Bert => paths.bert is Some && loads(paths, bigvgan)[i].1 == paths.bert->0@,
            ModelRole::Hubert => paths.hubert is Some && loads(paths, bigvgan)[i].1
                == paths.hubert->0@ && i == loads(paths, bigvgan).len() - 1,
        },
        loads(paths, bigvgan).len() == 2 + (if bigvgan is Some {
            1int
        } else {
            0
        }) + (if paths.bert is Some {
            1int
        } else {
            0
        }) + (if paths.hubert is Some {
            1int
        } else {
            0
        }),
{
}

/// What is asked of the program: inspecting wins over listing voices, that over the checks, those
/// over serving, and speaking is what is left.
pub proof fn the_program_does_one_thing(args: Args)
    ensures
        startup_of(args) == Startup::Inspect <==> args.inspect is Some,
        startup_of(args) == Startup::ListVoices <==> args.inspect is None && args.list_voices,
        startup_of(args) == Startup::Doctor <==> args.inspect is None && !args.list_voices
            && args.doctor,
        startup_of(args) == Startup::Speak <==> args.inspect is None && !args.list_voices
            && !args.doctor && !args.http,
{
}

/// Speaking needs reference audio and a reference text, given or of the voice, and a speaker
/// embedding that is a file where there is one.
pub proof fn speaking_needs_references(args: Args, voice: VoiceReference, sv_is_file: bool)
    ensures
        references_fault(args, voice, sv_is_file) is None <==> (args.reference_audio is Some
            || voice.reference_audio is Some) && (args.reference_text is Some
            || voice.reference_text is Some) && (sv_is_file || (args.sv_embedding is None
            && voice.sv_embedding is None)),
        arguments_fault(args) is None <==> (args.http || args.text is Some) && (
        args.language is None || language_named(lowercase(args.language->0@)) is Some),
{
}

/// What was given wins over what the voice has.
pub proof fn arguments_win_over_voices(own: String, voice: Option<String>)
    ensures
        own_or_voice(Some(own), voice) == Some(own@),
        own_or_voice(None, voice) == text_view(voice),
{
}

/// Only the BERT and the HuBERT model can be missing.
pub proof fn two_models_can_be_missing(role: ModelRole)
    ensures
        is_optional(role) <==> role != ModelRole::Gpt && role != ModelRole::Sovits && role
            != ModelRole::BigVgan,
{
}

} // verus!
