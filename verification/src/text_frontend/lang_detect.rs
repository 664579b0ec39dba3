//! Language detection by Unicode character ranges.

use crate::strings::{chars_of, count, lemma_count};
use crate::{Error, Language};
use vstd::prelude::*;

verus! {

/// The script that a character belongs to.
#[derive(Debug, Clone, Copy, PartialEq, Eq, Structural)]
pub enum Script {
    Han,
    Kana,
    Hangul,
    Latin,
    Other,
}

/// The script of a character.
pub open spec fn script_of(c: char) -> Script {
    if '\u{4e00}' <= c <= '\u{9fff}' {
        Script::Han
    } else if '\u{3040}' <= c <= '\u{30ff}' {
        Script::Kana
    } else if '\u{ac00}' <= c <= '\u{d7af}' || '\u{1100}' <= c <= '\u{11ff}' {
        Script::Hangul
    } else if c <= '\u{ff}' {
        Script::Latin
    } else {
        Script::Other
    }
}

/// The script of a character.
pub fn script(c: char) -> (r: Script)
    ensures
        r == script_of(c),
{
    if '\u{4e00}' <= c && c <= '\u{9fff}' {
        Script::Han
    } else if '\u{3040}' <= c && c <= '\u{30ff}' {
        Script::Kana
    } else if ('\u{ac00}' <= c && c <= '\u{d7af}') || ('\u{1100}' <= c && c <= '\u{11ff}') {
        Script::Hangul
    } else if c <= '\u{ff}' {
        Script::Latin
    } else {
        Script::Other
    }
}

/// How many characters of a text are of a script.
pub open spec fn in_script(text: Seq<char>, s: Script) -> nat {
    count(text, |c: char| script_of(c) == s)
}

/// How often each script occurs in a text.
#[derive(Debug, Clone, Copy)]
pub struct ScriptCounts {
    pub han: usize,
    pub kana: usize,
    pub hangul: usize,
    pub latin: usize,
    pub total: usize,
}

impl ScriptCounts {
    /// Whether these are the counts of a text.
    pub open spec fn of(&self, text: Seq<char>) -> bool {
        &&& self.han == in_script(text, Script::Han)
        &&& self.kana == in_script(text, Script::Kana)
        &&& self.hangul == in_script(text, Script::Hangul)
        &&& self.latin == in_script(text, Script::Latin)
        &&& self.total == text.len()
    }
}

/// The counts of a text.
pub fn count_scripts(text: &str) -> (r: ScriptCounts)
    ensures
        r.of(text@),
{
    let chars = chars_of(text);
    let mut r = ScriptCounts { han: 0, kana: 0, hangul: 0, latin: 0, total: 0 };
    for i in 0..chars.len()
        invariant
            chars@ == text@,
            r.of(chars@.take(i as int)),
    {
        proof {
            let done = chars@.take(i as int);
            assert(chars@.take(i + 1).drop_last() =~= done);
            lemma_count(done, |c: char| script_of(c) == Script::Han);
            lemma_count(done, |c: char| script_of(c) == Script::Kana);
            lemma_count(done, |c: char| script_of(c) == Script::Hangul);
            lemma_count(done, |c: char| script_of(c) == Script::Latin);
        }
        match script(chars[i]) {
            Script::Han => {
                r.han = r.han + 1;
            },
            Script::Kana => {
                r.kana = r.kana + 1;
            },
            Script::Hangul => {
                r.hangul = r.hangul + 1;
            },
            Script::Latin => {
                r.latin = r.latin + 1;
            },
            Script::Other => {},
        }
        r.total = r.total + 1;
    }
    assert(chars@.take(chars@.len() as int) =~= chars@);
    r
}

/// Whether `n` of `total` characters are half of them or more.
pub open spec fn is_half(n: nat, total: nat) -> bool {
    2 * n >= total
}

/// The language of a text: the first of Japanese, Korean, Chinese and English whose script
/// makes up at least half of it; else the one whose script is most frequent, of equals
/// English before Korean before Japanese before Chinese. An empty text is Chinese.
pub open spec fn detected(text: Seq<char>) -> Language {
    let han = in_script(text, Script::Han);
    let kana = in_script(text, Script::Kana);
    let hangul = in_script(text, Script::Hangul);
    let latin = in_script(text, Script::Latin);
    if text.len() == 0 {
        Language::Chinese
    } else if is_half(kana, text.len()) {
        Language::Japanese
    } else if is_half(hangul, text.len()) {
        Language::Korean
    } else if is_half(han, text.len()) {
        Language::Chinese
    } else if is_half(latin, text.len()) {
        Language::English
    } else if latin >= hangul && latin >= kana && latin >= han {
        Language::English
    } else if hangul >= kana && hangul >= han {
        Language::Korean
    } else if kana >= han {
        Language::Japanese
    } else {
        Language::Chinese
    }
}

/// The greatest count of a script.
pub open spec fn greatest(text: Seq<char>) -> nat {
    let han = in_script(text, Script::Han);
    let kana = in_script(text, Script::Kana);
    let hangul = in_script(text, Script::Hangul);
    let latin = in_script(text, Script::Latin);
    let a = if han >= kana {
        han
    } else {
        kana
    };
    let b = if hangul >= latin {
        hangul
    } else {
        latin
    };
    if a >= b {
        a
    } else {
        b
    }
}

/// The language whose script is most frequent in a text, of equals Japanese before Korean
/// before Chinese before English.
pub open spec fn most_frequent(text: Seq<char>) -> Language {
    let han = in_script(text, Script::Han);
    let kana = in_script(text, Script::Kana);
    let hangul = in_script(text, Script::Hangul);
    if kana > 0 && kana == greatest(text) {
        Language::Japanese
    } else if hangul > 0 && hangul == greatest(text) {
        Language::Korean
    } else if han > 0 && han == greatest(text) {
        Language::Chinese
    } else {
        Language::English
    }
}

/// Language detector.
#[derive(Debug)]
pub struct LanguageDetector {}

impl LanguageDetector {
    pub fn new() -> (r: Result<Self, Error>)
        ensures
            r is Ok,
    {
        Ok(Self {  })
    }

    /// Whether `n` of `total` characters are half of them or more.
    fn half(n: usize, total: usize) -> (r: bool)
        requires
            n <= total,
        ensures
            r == is_half(n as nat, total as nat),
    {
        n >= total - n
    }

    /// Detects the language of a text.
    pub fn detect(&self, text: &str) -> (r: Result<Language, Error>)
        ensures
            r matches Ok(l) && l == detected(text@),
    {
        let n = count_scripts(text);
        proof {
            lemma_count(text@, |c: char| script_of(c) == Script::Han);
            lemma_count(text@, |c: char| script_of(c) == Script::Kana);
            lemma_count(text@, |c: char| script_of(c) == Script::Hangul);
            lemma_count(text@, |c: char| script_of(c) == Script::Latin);
        }
        let language = if n.total == 0 {
            Language::Chinese
        } else if Self::half(n.kana, n.total) {
            Language::Japanese
        } else if Self::half(n.hangul, n.total) {
            Language::Korean
        } else if Self::half(n.han, n.total) {
            Language::Chinese
        } else if Self::half(n.latin, n.total) {
            Language::English
        } else if n.latin >= n.hangul && n.latin >= n.kana && n.latin >= n.han {
            Language::English
        } else if n.hangul >= n.kana && n.hangul >= n.han {
            Language::Korean
        } else if n.kana >= n.han {
            Language::Japanese
        } else {
            Language::Chinese
        };
        Ok(language)
    }

    /// Detects the language of a text, with how many of how many characters speak for it;
    /// an empty text counts as one of one.
    pub fn detect_with_confidence(&self, text: &str) -> (r: Result<
        (Language, usize, usize),
        Error,
    >)
        ensures
            r matches Ok(p) && if text@.len() == 0 {
                p == (Language::Chinese, 1usize, 1usize)
            } else {
                p.0 == most_frequent(text@) && p.1 == greatest(text@) && p.2 == text@.len()
            },
    {
        let n = count_scripts(text);
        if n.total == 0 {
            return Ok((Language::Chinese, 1, 1));
        }
        let a: usize = if n.han >= n.kana {
            n.han
        } else {
            n.kana
        };
        let b: usize = if n.hangul >= n.latin {
            n.hangul
        } else {
            n.latin
        };
        let most: usize = if a >= b {
            a
        } else {
            b
        };
        let language = if n.kana > 0 && n.kana == most {
            Language::Japanese
        } else if n.hangul > 0 && n.hangul == most {
            Language::Korean
        } else if n.han > 0 && n.han == most {
            Language::Chinese
        } else {
            Language::English
        };
        Ok((language, most, n.total))
    }
}

/// Scripts do not overlap: no two counts together exceed the text.
proof fn lemma_disjoint(text: Seq<char>, a: Script, b: Script)
    requires
        a != b,
    ensures
        in_script(text, a) + in_script(text, b) <= text.len(),
    decreases text.len(),
{
    if text.len() > 0 {
        lemma_disjoint(text.drop_last(), a, b);
    }
}

/// Where one script makes up more than half of a text, detection and detection with
/// confidence agree.
pub proof fn majority_decides(text: Seq<char>)
    requires
        2 * greatest(text) > text.len(),
    ensures
        detected(text) == most_frequent(text),
{
    let han = Script::Han;
    let kana = Script::Kana;
    let hangul = Script::Hangul;
    let latin = Script::Latin;
    lemma_disjoint(text, han, kana);
    lemma_disjoint(text, han, hangul);
    lemma_disjoint(text, han, latin);
    lemma_disjoint(text, kana, hangul);
    lemma_disjoint(text, kana, latin);
    lemma_disjoint(text, hangul, latin);
}

/// The scripts by code points: Chinese characters, Japanese syllables, Korean syllables and
/// letters, and what Latin-1 holds.
pub proof fn scripts_have_their_ranges(c: char)
    ensures
        script_of(c) == Script::Han <==> 0x4E00 <= c as u32 <= 0x9FFF,
        script_of(c) == Script::Kana <==> 0x3040 <= c as u32 <= 0x30FF,
        script_of(c) == Script::Hangul <==> 0xAC00 <= c as u32 <= 0xD7AF || 0x1100 <= c as u32
            <= 0x11FF,
        script_of(c) == Script::Latin <==> c as u32 <= 0xFF,
{
}

/// The script that a language is written in.
pub open spec fn script_of_language(language: Language) -> Script {
    match language {
        Language::Japanese => Script::Kana,
        Language::Korean => Script::Hangul,
        Language::English => Script::Latin,
        _ => Script::Han,
    }
}

/// The detected language is one whose script makes up half of the text, or one whose script is
/// as frequent as any; Japanese comes before Korean before Chinese before English where several
/// make up half.
pub proof fn detection_goes_by_frequency(text: Seq<char>, other: Language)
    requires
        text.len() > 0,
    ensures
        detected(text) != Language::Auto && detected(text) != Language::Cantonese,
        2 * in_script(text, script_of_language(detected(text))) >= text.len() || in_script(
            text,
            script_of_language(detected(text)),
        ) >= in_script(text, script_of_language(other)),
        2 * in_script(text, script_of_language(other)) >= text.len() ==> 2 * in_script(
            text,
            script_of_language(detected(text)),
        ) >= text.len(),
        2 * in_script(text, Script::Kana) >= text.len() ==> detected(text) == Language::Japanese,
        2 * in_script(text, Script::Hangul) >= text.len() ==> detected(text) == Language::Korean
            || detected(text) == Language::Japanese,
        2 * in_script(text, Script::Han) >= text.len() ==> detected(text) != Language::English,
{
}

/// The confidence is the share of the most frequent script, which is that of the language.
pub proof fn confidence_is_the_greatest_share(text: Seq<char>, other: Language)
    ensures
        greatest(text) >= in_script(text, script_of_language(other)),
        greatest(text) == in_script(text, script_of_language(most_frequent(text))),
        greatest(text) <= text.len(),
{
    lemma_count(text, |c: char| script_of(c) == Script::Han);
    lemma_count(text, |c: char| script_of(c) == Script::Kana);
    lemma_count(text, |c: char| script_of(c) == Script::Hangul);
    lemma_count(text, |c: char| script_of(c) == Script::Latin);
}

/// A text in one script is in the language of that script.
pub proof fn text_in_one_script(text: Seq<char>, language: Language)
    requires
        text.len() > 0,
        language != Language::Auto,
        language != Language::Cantonese,
        forall|i: int|
            0 <= i < text.len() ==> script_of(#[trigger] text[i]) == script_of_language(language),
    ensures
        detected(text) == language,
        most_frequent(text) == language,
{
    lemma_all_in_script(text, script_of_language(language));
    if language != Language::Chinese {
        lemma_disjoint(text, script_of_language(language), Script::Han);
    }
    if language != Language::Japanese {
        lemma_disjoint(text, script_of_language(language), Script::Kana);
    }
    if language != Language::Korean {
        lemma_disjoint(text, script_of_language(language), Script::Hangul);
    }
    if language != Language::English {
        lemma_disjoint(text, script_of_language(language), Script::Latin);
    }
}

proof fn lemma_all_in_script(text: Seq<char>, s: Script)
    requires
        forall|i: int| 0 <= i < text.len() ==> script_of(#[trigger] text[i]) == s,
    ensures
        in_script(text, s) == text.len(),
    decreases text.len(),
{
    if text.len() > 0 {
        let before = text.drop_last();
        assert forall|i: int| 0 <= i < before.len() implies script_of(#[trigger] before[i])
            == s by {
            assert(before[i] == text[i]);
        }
        lemma_all_in_script(before, s);
    }
}

} // verus!
