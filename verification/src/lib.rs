//! GPT-SoVITS: the decisions and text processing of a zero-shot text-to-speech engine.

use vstd::prelude::*;

use crate::strings::{lowercase, same};

pub mod audio_checks;
pub mod cli;
pub mod config;
pub mod convert;
pub mod doctor;
pub mod float_bits;
pub mod inference;
pub mod matrix;
pub mod model_paths;
pub mod models;
pub mod paths;
pub mod server;
pub mod strings;
pub mod tensor_file;
pub mod text_frontend;
pub mod voice;

verus! {

/// Supported languages.
#[derive(Debug, Clone, Copy, PartialEq, Eq, Structural, Hash)]
pub enum Language {
    Chinese,
    English,
    Japanese,
    Korean,
    Cantonese,
    Auto,
}

impl Default for Language {
    fn default() -> (r: Self)
        ensures
            r == Language::Chinese,
    {
        Language::Chinese
    }
}

/// The language that a lowercase name stands for.
pub open spec fn language_named(name: Seq<char>) -> Option<Language> {
    if name == "zh"@ || name == "zh-cn"@ || name == "chinese"@ || name == "中文"@ {
        Some(Language::Chinese)
    } else if name == "en"@ || name == "english"@ || name == "英文"@ {
        Some(Language::English)
    } else if name == "ja"@ || name == "japanese"@ || name == "日文"@ {
        Some(Language::Japanese)
    } else if name == "ko"@ || name == "korean"@ || name == "韩文"@ {
        Some(Language::Korean)
    } else if name == "yue"@ || name == "cantonese"@ || name == "粤语"@ {
        Some(Language::Cantonese)
    } else if name == "auto"@ || name == "多语种混合"@ {
        Some(Language::Auto)
    } else {
        None
    }
}

impl Language {
    /// The language that a lowercase name stands for.
    pub fn from_lowercase(name: &str) -> (r: Option<Language>)
        ensures
            r == language_named(name@),
    {
        if same(name, "zh") || same(name, "zh-cn") || same(name, "chinese") || same(name, "中文") {
            Some(Language::Chinese)
        } else if same(name, "en") || same(name, "english") || same(name, "英文") {
            Some(Language::English)
        } else if same(name, "ja") || same(name, "japanese") || same(name, "日文") {
            Some(Language::Japanese)
        } else if same(name, "ko") || same(name, "korean") || same(name, "韩文") {
            Some(Language::Korean)
        } else if same(name, "yue") || same(name, "cantonese") || same(name, "粤语") {
            Some(Language::Cantonese)
        } else if same(name, "auto") || same(name, "多语种混合") {
            Some(Language::Auto)
        } else {
            None
        }
    }

    /// The language that a name stands for, in any case.
    pub fn parse(s: &str) -> (r: Option<Language>)
        ensures
            r == language_named(lowercase(s@)),
    {
        Self::from_lowercase(s.to_lowercase().as_str())
    }
}

/// Errors of the library.
#[derive(Debug)]
pub enum Error {
    ModelLoadError(String),
    InferenceError(String),
    TextError(String),
    AudioError(String),
    ConfigError(String),
    CandleError(String),
}

/// The text of an error.
pub open spec fn error_text(e: Error) -> Seq<char> {
    match e {
        Error::ModelLoadError(s) => "Model loading failed: "@ + s@,
        Error::InferenceError(s) => "Inference failed: "@ + s@,
        Error::TextError(s) => "Text processing failed: "@ + s@,
        Error::AudioError(s) => "Audio I/O failed: "@ + s@,
        Error::ConfigError(s) => "Configuration error: "@ + s@,
        Error::CandleError(s) => "Candle error: "@ + s@,
    }
}

impl Error {
    /// The text of the error.
    pub fn message(&self) -> (r: String)
        ensures
            r@ == error_text(*self),
    {
        let (kind, detail) = match self {
            Error::ModelLoadError(s) => ("Model loading failed: ", s),
            Error::InferenceError(s) => ("Inference failed: ", s),
            Error::TextError(s) => ("Text processing failed: ", s),
            Error::AudioError(s) => ("Audio I/O failed: ", s),
            Error::ConfigError(s) => ("Configuration error: ", s),
            Error::CandleError(s) => ("Candle error: ", s),
        };
        let mut text = kind.to_owned();
        text.push_str(detail.as_str());
        text
    }
}

} // verus!
