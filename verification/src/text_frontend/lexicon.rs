//! Word segmentation and pronunciation of Chinese text.

use crate::strings::{concat, occurs_at, views};
use jieba_rs::Jieba;
use pinyin::ToPinyin;
use vstd::prelude::*;

verus! {

/// The segmenter of `jieba_rs`.
#[verifier::external_type_specification]
#[verifier::external_body]
pub struct ExJieba(jieba_rs::Jieba);

/// What a segmenter's dictionary holds: for each word its frequency and its part of speech.
pub uninterp spec fn dictionary(jieba: Jieba) -> Map<Seq<char>, (nat, Seq<char>)>;

/// The words of a text with their parts of speech, as `Jieba::tag` gives them with the
/// hidden Markov model switched on.
pub uninterp spec fn tagged_words(
    dictionary: Map<Seq<char>, (nat, Seq<char>)>,
    text: Seq<char>,
) -> Seq<(Seq<char>, Seq<char>)>;

/// The words of a text and the shorter dictionary words inside them, as
/// `Jieba::cut_for_search` gives them with the hidden Markov model switched on.
pub uninterp spec fn search_words(
    dictionary: Map<Seq<char>, (nat, Seq<char>)>,
    text: Seq<char>,
) -> Seq<Seq<char>>;

/// The pinyin of a character with the tone number at its end, as
/// `Pinyin::with_tone_num_end` of `char::to_pinyin` gives it.
pub uninterp spec fn pinyin_of(c: char) -> Option<Seq<char>>;

/// A segmented text: words with their parts of speech.
pub open spec fn seg_view(seg: Seq<(String, String)>) -> Seq<(Seq<char>, Seq<char>)> {
    seg.map_values(|p: (String, String)| (p.0@, p.1@))
}

/// The words of a segmented text, without their parts of speech.
pub open spec fn words_of(seg: Seq<(Seq<char>, Seq<char>)>) -> Seq<Seq<char>> {
    seg.map_values(|p: (Seq<char>, Seq<char>)| p.0)
}

/// `Jieba::new` makes a segmenter with the embedded dictionary. Which words that
/// dictionary holds is left unsaid.
#[verifier::external_body]
pub(crate) fn new_segmenter() -> (jieba: Jieba) {
    Jieba::new()
}

/// `Jieba::tag` cuts a text into words that together are the text, none of them empty,
/// each with its part of speech.
#[verifier::external_body]
pub(crate) fn tag_words(jieba: &Jieba, text: &str) -> (seg: Vec<(String, String)>)
    ensures
        seg_view(seg@) == tagged_words(dictionary(*jieba), text@),
        concat(words_of(seg_view(seg@))) == text@,
        forall|i: int| 0 <= i < seg@.len() ==> (#[trigger] seg@[i]).0@.len() > 0,
{
    jieba.tag(text, true).iter().map(|t| (t.word.to_string(), t.tag.to_string())).collect()
}

/// `Jieba::cut_for_search` lists parts of the text, none of them empty; a text that is not
/// empty has at least one.
#[verifier::external_body]
pub(crate) fn cut_for_search(jieba: &Jieba, text: &str) -> (parts: Vec<String>)
    ensures
        views(parts@) == search_words(dictionary(*jieba), text@),
        forall|i: int|
            0 <= i < parts@.len() ==> (#[trigger] parts@[i])@.len() > 0 && exists|at: int|
                occurs_at(text@, parts@[i]@, at),
        text@.len() > 0 ==> parts@.len() > 0,
{
    jieba.cut_for_search(text, true).iter().map(|w| w.to_string()).collect()
}

/// `char::to_pinyin` with `Pinyin::with_tone_num_end`: the pinyin of a character followed
/// by its tone number, or nothing where the character has no pinyin.
#[verifier::external_body]
pub(crate) fn pinyin_with_tone(c: char) -> (r: Option<String>)
    ensures
        match r {
            Some(s) => pinyin_of(c) == Some(s@),
            None => pinyin_of(c) is None,
        },
{
    c.to_pinyin().map(|p| p.with_tone_num_end().to_string())
}

} // verus!
