//! Parts of responses.

use crate::inference::options::text_view;
use crate::strings::{
    all_ascii, ascii_lowercase, ascii_lowered, chars_of, decimal, decimal_string, is_ascii,
    lowercase, same, trim, trimmed,
};
use crate::{language_named, Language};
use vstd::prelude::*;

verus! {

/// The code of a language.
pub open spec fn code_of(language: Language) -> Seq<char> {
    match language {
        Language::Chinese => "zh"@,
        Language::English => "en"@,
        Language::Japanese => "ja"@,
        Language::Korean => "ko"@,
        Language::Cantonese => "yue"@,
        Language::Auto => "auto"@,
    }
}

/// The code of a language.
pub fn language_code(language: Language) -> (r: &'static str)
    ensures
        r@ == code_of(language),
{
    match language {
        Language::Chinese => "zh",
        Language::English => "en",
        Language::Japanese => "ja",
        Language::Korean => "ko",
        Language::Cantonese => "yue",
        Language::Auto => "auto",
    }
}

/// A character that a header can hold: itself where it is printable ASCII, else an underscore.
pub open spec fn header_char(c: char) -> char {
    if ' ' <= c <= '~' {
        c
    } else {
        '_'
    }
}

/// A text that a header can hold.
pub fn safe_header_value(value: &str) -> (r: String)
    ensures
        r@ == value@.map_values(|c: char| header_char(c)),
{
    let chars = chars_of(value);
    let mut r = String::new();
    for i in 0..chars.len()
        invariant
            chars@ == value@,
            r@ == chars@.take(i as int).map_values(|c: char| header_char(c)),
    {
        let c = chars[i];
        r.push(
            if ' ' <= c && c <= '~' {
                c
            } else {
                '_'
            },
        );
        assert(r@ =~= chars@.take(i + 1).map_values(|c: char| header_char(c)));
    }
    assert(chars@.take(chars@.len() as int) =~= chars@);
    r
}

/// Headers by their views.
pub open spec fn headers_view(headers: Seq<(String, String)>) -> Seq<(Seq<char>, Seq<char>)> {
    headers.map_values(|h: (String, String)| (h.0@, h.1@))
}

/// The headers that describe a synthesis.
pub open spec fn synthesis_headers_of(
    voice: Option<Seq<char>>,
    language: Language,
    text_chars: nat,
) -> Seq<(Seq<char>, Seq<char>)> {
    seq![("x-tts-language"@, code_of(language)), ("x-tts-text-chars"@, decimal(text_chars))]
        + match voice {
        Some(v) => seq![("x-tts-voice"@, v.map_values(|c: char| header_char(c)))],
        None => Seq::empty(),
    }
}

/// Adds a header.
fn push_header(headers: &mut Vec<(String, String)>, name: &str, value: &str)
    ensures
        headers_view(final(headers)@) == headers_view(old(headers)@).push((name@, value@)),
{
    headers.push((name.to_owned(), value.to_owned()));
    assert(headers_view(headers@) =~= headers_view(old(headers)@).push((name@, value@)));
}

/// The headers that describe a synthesis.
pub fn synthesis_headers(voice: &Option<String>, language: Language, text_chars: usize) -> (r: Vec<
    (String, String),
>)
    ensures
        headers_view(r@) == synthesis_headers_of(text_view(*voice), language, text_chars as nat),
{
    let mut headers: Vec<(String, String)> = Vec::new();
    assert(headers_view(headers@) =~= Seq::empty());
    push_header(&mut headers, "x-tts-language", language_code(language));
    push_header(&mut headers, "x-tts-text-chars", decimal_string(text_chars as u64).as_str());
    if let Some(v) = voice {
        push_header(&mut headers, "x-tts-voice", safe_header_value(v.as_str()).as_str());
    }
    assert(headers_view(headers@) =~= synthesis_headers_of(
        text_view(*voice),
        language,
        text_chars as nat,
    ));
    headers
}

/// Format of synthesized speech.
#[derive(Debug, Clone, Copy, PartialEq, Eq, Structural)]
pub enum SpeechOutputFormat {
    Wav,
    Pcm,
}

/// The format that a name stands for; none stands for WAV.
pub open spec fn format_named(format: Option<Seq<char>>) -> Option<SpeechOutputFormat> {
    match format {
        None => Some(SpeechOutputFormat::Wav),
        Some(s) => {
            let name = ascii_lowered(trimmed(s));
            if name == "wav"@ {
                Some(SpeechOutputFormat::Wav)
            } else if name == "pcm"@ {
                Some(SpeechOutputFormat::Pcm)
            } else {
                None
            }
        },
    }
}

impl SpeechOutputFormat {
    /// The format that a name stands for.
    pub fn parse(format: Option<&str>) -> (r: Result<Self, String>)
        ensures
            ({
                let asked = match format {
                    Some(s) => Some(s@),
                    None => None,
                };
                match r {
                    Ok(f) => format_named(asked) == Some(f),
                    Err(e) => format_named(asked) is None && e@ == "unsupported response_format: "@
                        + ascii_lowered(trimmed(asked->0)) + "; supported formats: wav, pcm"@,
                }
            }),
    {
        let name = match format {
            None => {
                return Ok(SpeechOutputFormat::Wav);
            },
            Some(s) => ascii_lowercase(trim(s).as_str()),
        };
        if same(name.as_str(), "wav") {
            Ok(SpeechOutputFormat::Wav)
        } else if same(name.as_str(), "pcm") {
            Ok(SpeechOutputFormat::Pcm)
        } else {
            let mut message = "unsupported response_format: ".to_owned();
            message.push_str(name.as_str());
            message.push_str("; supported formats: wav, pcm");
            Err(message)
        }
    }

    /// The content type of the format.
    pub fn content_type(self) -> (r: &'static str)
        ensures
            r@ == match self {
                SpeechOutputFormat::Wav => "audio/wav"@,
                SpeechOutputFormat::Pcm => "application/octet-stream"@,
            },
    {
        match self {
            SpeechOutputFormat::Wav => "audio/wav",
            SpeechOutputFormat::Pcm => "application/octet-stream",
        }
    }

    /// The name of the format.
    pub fn as_header_value(self) -> (r: &'static str)
        ensures
            r@ == match self {
                SpeechOutputFormat::Wav => "wav"@,
                SpeechOutputFormat::Pcm => "pcm"@,
            },
    {
        match self {
            SpeechOutputFormat::Wav => "wav",
            SpeechOutputFormat::Pcm => "pcm",
        }
    }
}

/// Making a text fit for a header settles it: doing it again changes nothing.
pub proof fn header_text_settles(value: Seq<char>)
    ensures
        value.map_values(|c: char| header_char(c)).map_values(|c: char| header_char(c))
            == value.map_values(|c: char| header_char(c)),
{
    assert(value.map_values(|c: char| header_char(c)).map_values(|c: char| header_char(c))
        =~= value.map_values(|c: char| header_char(c)));
}

/// The code of a language names that language.
pub proof fn a_code_names_its_language(language: Language)
    ensures
        language_named(lowercase(code_of(language))) == Some(language),
{
    reveal_strlit("zh");
    reveal_strlit("zh-cn");
    reveal_strlit("chinese");
    reveal_strlit("中文");
    reveal_strlit("en");
    reveal_strlit("english");
    reveal_strlit("英文");
    reveal_strlit("ja");
    reveal_strlit("japanese");
    reveal_strlit("日文");
    reveal_strlit("ko");
    reveal_strlit("korean");
    reveal_strlit("韩文");
    reveal_strlit("yue");
    reveal_strlit("cantonese");
    reveal_strlit("粤语");
    reveal_strlit("auto");
    let code = code_of(language);
    assert(all_ascii(code));
    assert(ascii_lowered(code) =~= code);
    assert(code[0] != 'z' ==> code != "zh"@ && code != "zh-cn"@);
    assert(code[0] != 'e' ==> code != "en"@ && code != "english"@);
    assert(code[0] != 'j' ==> code != "ja"@ && code != "japanese"@);
    assert(code[0] != 'k' ==> code != "ko"@ && code != "korean"@);
    assert(code[0] != 'y' ==> code != "yue"@);
    assert(code[0] != 'c' ==> code != "chinese"@ && code != "cantonese"@);
    assert(is_ascii(code[0]) ==> code != "中文"@ && code != "英文"@ && code != "日文"@ && code
        != "韩文"@ && code != "粤语"@);
}

/// A header holds as many characters as the text has, each printable and of ASCII: those that are
/// so stay, and every other becomes an underscore.
pub proof fn headers_are_printable(value: Seq<char>, i: int)
    requires
        0 <= i < value.len(),
    ensures
        value.map_values(|c: char| header_char(c)).len() == value.len(),
        '\u{20}' <= value.map_values(|c: char| header_char(c))[i] <= '\u{7e}',
        '\u{20}' <= value[i] <= '\u{7e}' ==> value.map_values(|c: char| header_char(c))[i]
            == value[i],
        !('\u{20}' <= value[i] <= '\u{7e}') ==> value.map_values(|c: char| header_char(c))[i]
            == '_',
{
}

/// Formats go by their names in any case and with white space around them; WAV is the one where
/// none is named.
pub proof fn formats_go_by_their_names(name: Seq<char>)
    ensures
        format_named(None) == Some(SpeechOutputFormat::Wav),
        format_named(Some(name)) == Some(SpeechOutputFormat::Wav) <==> ascii_lowered(trimmed(name))
            == seq!['w', 'a', 'v'],
        format_named(Some(name)) == Some(SpeechOutputFormat::Pcm) <==> ascii_lowered(trimmed(name))
            == seq!['p', 'c', 'm'],
{
    reveal_strlit("wav");
    reveal_strlit("pcm");
    assert("wav"@ =~= seq!['w', 'a', 'v']);
    assert("pcm"@ =~= seq!['p', 'c', 'm']);
    assert("wav"@[0] != "pcm"@[0]);
}

} // verus!
