//! Text frontend: normalization, language detection and grapheme-to-phoneme conversion.

pub mod annotations;
pub mod english;
pub mod g2p;
pub mod joining;
pub mod lang_detect;
pub mod lexicon;
pub mod merge;
pub mod neutral_words;
pub mod normalizer;
pub mod spelling;
pub mod syllables;
pub mod symbols;
pub mod tone_sandhi;

use crate::strings::lines;
use crate::text_frontend::annotations::{
    annotations, parse_pinyin_overrides, remap_pinyin_overrides, remapped,
    text_without_brackets_has_no_annotations,
};
use crate::text_frontend::english::entries;
use crate::text_frontend::g2p::{
    chinese_read, converted, counts_view, given_view, phoneme_text, sum, Knowledge,
};
use crate::text_frontend::lang_detect::detected;
use crate::text_frontend::normalizer::{model_mark, normalized};
use crate::text_frontend::symbols::{
    encoded, encoding_reads_each_phoneme, json_strings, no_empty_symbol, no_space_in_symbols,
};
use crate::{Error, Language};
use vstd::prelude::*;

pub use g2p::{G2PConverter, PinyinOverride};
pub use lang_detect::LanguageDetector;
pub use normalizer::TextNormalizer;
pub use symbols::SymbolTable;

verus! {

/// What the model is given of a text: the normalized text, its language and the readings
/// given for its characters; or what is wrong with its annotations.
pub open spec fn model_input(text: Seq<char>, language: Language) -> Result<
    (Seq<char>, Language, Seq<Option<(Seq<char>, u32)>>),
    Seq<char>,
> {
    match annotations(text, 0) {
        Err(e) => Err(e),
        Ok((clean, raw)) => {
            let norm = normalized(clean);
            let lang = if language == Language::Auto {
                detected(norm)
            } else {
                language
            };
            if lang == Language::Chinese {
                let model = norm.map_values(|c: char| model_mark(c));
                match remapped(clean, model, raw) {
                    Ok(given) => Ok((model, lang, given)),
                    Err(e) => Err(e),
                }
            } else {
                Ok((norm, lang, Seq::empty()))
            }
        },
    }
}

/// The phonemes of what the model is given.
pub open spec fn input_phonemes(
    known: Knowledge,
    input: (Seq<char>, Language, Seq<Option<(Seq<char>, u32)>>),
) -> Seq<char> {
    if input.1 == Language::Chinese {
        phoneme_text(chinese_read(known, input.0, input.2).0, input.0)
    } else {
        converted(known, input.0, input.1)
    }
}

/// Every phoneme of a Chinese text has an identifier of its own: where all phonemes are
/// symbols and there is at least one, as many identifiers come out as the counts add up to.
pub proof fn counts_match_identifiers(
    known: Knowledge,
    symbols: Seq<Seq<char>>,
    text: Seq<char>,
    given: Seq<Option<(Seq<char>, u32)>>,
)
    requires
        no_empty_symbol(symbols),
        no_space_in_symbols(symbols),
        chinese_read(known, text, given).0.len() > 0,
        forall|i: int|
            0 <= i < chinese_read(known, text, given).0.len() ==> symbols.contains(
                #[trigger] chinese_read(known, text, given).0[i],
            ),
    ensures
        encoded(symbols, phoneme_text(chinese_read(known, text, given).0, text)).len() == sum(
            chinese_read(known, text, given).1,
        ),
{
    let seg = merge::pre_merged(lexicon::tagged_words(known.words, text));
    g2p::counts_match_phonemes(seg, seg.len(), known, given);
    encoding_reads_each_phoneme(symbols, chinese_read(known, text, given).0);
}

/// Text frontend.
pub struct TextFrontend {
    normalizer: TextNormalizer,
    language_detector: LanguageDetector,
    g2p_converter: G2PConverter,
    symbol_table: SymbolTable,
}

impl TextFrontend {
    /// The symbols of the phonemes.
    pub closed spec fn symbols(&self) -> Seq<Seq<char>> {
        self.symbol_table.symbols()
    }

    /// What the frontend knows besides the text.
    pub closed spec fn known(&self) -> Knowledge {
        self.g2p_converter.known()
    }

    /// A frontend with the given symbols, a JSON array, and pronouncing dictionary.
    pub fn new(symbols: &str, cmudict: &str) -> (r: Result<Self, Error>)
        ensures
            match r {
                Ok(f) => {
                    &&& json_strings(symbols@) == Some(f.symbols())
                    &&& no_empty_symbol(f.symbols())
                    &&& f.known().english == entries(lines(cmudict@))
                },
                Err(e) => {
                    &&& e matches Error::ConfigError(m)
                    &&& m@ == "symbols are not a JSON array of non-empty strings"@
                    &&& (json_strings(symbols@) matches Some(s) ==> !no_empty_symbol(s))
                },
            },
    {
        let symbol_table = match SymbolTable::new(symbols) {
            Ok(t) => t,
            Err(e) => {
                return Err(e);
            },
        };
        let language_detector = match LanguageDetector::new() {
            Ok(d) => d,
            Err(e) => {
                return Err(e);
            },
        };
        let g2p_converter = match G2PConverter::new(cmudict) {
            Ok(g) => g,
            Err(e) => {
                return Err(e);
            },
        };
        Ok(
            Self {
                normalizer: TextNormalizer::new(),
                language_detector,
                g2p_converter,
                symbol_table,
            },
        )
    }

    /// What the model is given of a text.
    pub fn normalize_for_model(&self, text: &str, language: Language) -> (r: Result<
        (String, Language, Vec<Option<PinyinOverride>>),
        Error,
    >)
        ensures
            match r {
                Ok(p) => model_input(text@, language) == Ok::<
                    (Seq<char>, Language, Seq<Option<(Seq<char>, u32)>>),
                    Seq<char>,
                >((p.0@, p.1, given_view(p.2@))),
                Err(e) => e matches Error::TextError(m) && model_input(text@, language) == Err::<
                    (Seq<char>, Language, Seq<Option<(Seq<char>, u32)>>),
                    Seq<char>,
                >(m@),
            },
    {
        let (clean_text, raw_overrides) = match parse_pinyin_overrides(text) {
            Ok(p) => p,
            Err(e) => {
                return Err(e);
            },
        };
        let normalized = match self.normalizer.normalize(clean_text.as_str()) {
            Ok(s) => s,
            Err(e) => {
                return Err(e);
            },
        };
        let lang = if language == Language::Auto {
            match self.language_detector.detect(normalized.as_str()) {
                Ok(l) => l,
                Err(e) => {
                    return Err(e);
                },
            }
        } else {
            language
        };
        if lang == Language::Chinese {
            let model = self.normalizer.normalize_chinese_model_text(normalized.as_str());
            match remap_pinyin_overrides(clean_text.as_str(), model.as_str(), &raw_overrides) {
                Ok(given) => Ok((model, lang, given)),
                Err(e) => Err(e),
            }
        } else {
            let none: Vec<Option<PinyinOverride>> = Vec::new();
            assert(given_view(none@) =~= Seq::empty());
            Ok((normalized, lang, none))
        }
    }

    /// The phonemes of what the model is given.
    fn phonemes_of(&self, text: &str, lang: Language, given: &Vec<Option<PinyinOverride>>) -> (r:
        Result<String, Error>)
        ensures
            r matches Ok(s) && s@ == input_phonemes(
                self.known(),
                (text@, lang, given_view(given@)),
            ),
    {
        if lang == Language::Chinese {
            match self.g2p_converter.convert_chinese_with_word2ph_and_overrides(text, given) {
                Ok((phonemes, _)) => Ok(phonemes),
                Err(e) => Err(e),
            }
        } else {
            self.g2p_converter.convert(text, lang)
        }
    }

    /// The identifiers of the phonemes of a text.
    pub fn process(&self, text: &str, language: Language) -> (r: Result<Vec<usize>, Error>)
        ensures
            match model_input(text@, language) {
                Ok(input) => r matches Ok(ids) && ids@ == encoded(
                    self.symbols(),
                    input_phonemes(self.known(), input),
                ),
                Err(m) => r matches Err(Error::TextError(s)) && s@ == m,
            },
    {
        match self.get_phonemes(text, language) {
            Ok(phonemes) => self.symbol_table.encode(phonemes.as_str()),
            Err(e) => Err(e),
        }
    }

    /// The identifiers of the phonemes of a text, and the number of phonemes of each
    /// character, for Chinese text.
    pub fn process_with_word2ph(&self, text: &str, language: Language) -> (r: Result<
        (Vec<usize>, Vec<usize>),
        Error,
    >)
        ensures
            match model_input(text@, language) {
                Ok(input) => r matches Ok(p) && {
                    &&& p.0@ == encoded(self.symbols(), input_phonemes(self.known(), input))
                    &&& if input.1 == Language::Chinese {
                        counts_view(p.1@) == chinese_read(self.known(), input.0, input.2).1
                    } else {
                        p.1@.len() == 0
                    }
                },
                Err(m) => r matches Err(Error::TextError(s)) && s@ == m,
            },
    {
        match self.process_with_word2ph_and_text(text, language) {
            Ok((ids, word2ph, _)) => Ok((ids, word2ph)),
            Err(e) => Err(e),
        }
    }

    /// The identifiers of the phonemes of a text, the number of phonemes of each character,
    /// for Chinese text, and the normalized text that they were made of.
    pub fn process_with_word2ph_and_text(&self, text: &str, language: Language) -> (r: Result<
        (Vec<usize>, Vec<usize>, String),
        Error,
    >)
        ensures
            match model_input(text@, language) {
                Ok(input) => r matches Ok(p) && {
                    &&& p.0@ == encoded(self.symbols(), input_phonemes(self.known(), input))
                    &&& p.2@ == input.0
                    &&& if input.1 == Language::Chinese {
                        &&& counts_view(p.1@) == chinese_read(self.known(), input.0, input.2).1
                        &&& p.1@.len() == p.2@.len()
                    } else {
                        p.1@.len() == 0
                    }
                },
                Err(m) => r matches Err(Error::TextError(s)) && s@ == m,
            },
    {
        let (normalized, lang, given) = match self.normalize_for_model(text, language) {
            Ok(p) => p,
            Err(e) => {
                return Err(e);
            },
        };
        if lang == Language::Chinese {
            match self.g2p_converter.convert_chinese_with_word2ph_and_overrides(
                normalized.as_str(),
                &given,
            ) {
                Ok((phonemes, word2ph)) => match self.symbol_table.encode(phonemes.as_str()) {
                    Ok(ids) => Ok((ids, word2ph, normalized)),
                    Err(e) => Err(e),
                },
                Err(e) => Err(e),
            }
        } else {
            match self.g2p_converter.convert(normalized.as_str(), lang) {
                Ok(phonemes) => match self.symbol_table.encode(phonemes.as_str()) {
                    Ok(ids) => Ok((ids, Vec::new(), normalized)),
                    Err(e) => Err(e),
                },
                Err(e) => Err(e),
            }
        }
    }

    /// The phonemes of a text.
    pub fn get_phonemes(&self, text: &str, language: Language) -> (r: Result<String, Error>)
        ensures
            match model_input(text@, language) {
                Ok(input) => r matches Ok(s) && s@ == input_phonemes(self.known(), input),
                Err(m) => r matches Err(Error::TextError(s)) && s@ == m,
            },
    {
        match self.normalize_for_model(text, language) {
            Ok((normalized, lang, given)) => self.phonemes_of(normalized.as_str(), lang, &given),
            Err(e) => Err(e),
        }
    }
}

/// A text without brackets is read as it is: normalized, in the language that was asked for or
/// else detected, with no readings given; and only Chinese text gets the marks of the model, one
/// for each character.
pub proof fn plain_text_is_read_as_it_is(text: Seq<char>, language: Language)
    requires
        !text.contains('['),
    ensures
        model_input(text, language) is Ok,
        language != Language::Auto ==> model_input(text, language)->Ok_0.1 == language,
        language == Language::Auto ==> model_input(text, language)->Ok_0.1 == detected(
            normalized(text),
        ),
        model_input(text, language)->Ok_0.2.len() == 0,
        model_input(text, language)->Ok_0.0.len() == normalized(text).len(),
        model_input(text, language)->Ok_0.1 != Language::Chinese ==> model_input(
            text,
            language,
        )->Ok_0.0 == normalized(text),
{
    text_without_brackets_has_no_annotations(text, 0);
}

/// Text with a wrong annotation is refused, whatever its language.
pub proof fn wrong_annotations_stop_the_text(text: Seq<char>, language: Language)
    requires
        annotations(text, 0) is Err,
    ensures
        model_input(text, language) is Err,
{
}

} // verus!
