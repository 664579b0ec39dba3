//! Grapheme-to-phoneme conversion.
//!
//! Chinese characters become an initial and a final with its tone; English words become
//! ARPABET phonemes.

use crate::strings::{
    ascii_letter, chars_of, count, decimal, decimal_string, digit, digit_char, is_ascii_letter, is_digit,
    is_space, join, join_strings, lemma_count, lemma_views_push, lines, one_of, same, split_words,
    string_between, text_without_white_space_is_a_word, views, words, words_part_at_white_space,
};
use crate::text_frontend::english::{
    dict_view, entries, load_cmudict, speak_word, word_spoken,
};
use crate::text_frontend::lexicon::{
    dictionary, new_segmenter, pinyin_of, pinyin_with_tone, seg_view, tag_words, tagged_words,
    words_of,
};
use crate::text_frontend::merge::{
    no_empty_word, pre_merge_keeps_text, pre_merge_makes_no_empty_word, pre_merged, text_of,
};
use crate::text_frontend::spelling::{final_of, initial_len, syllables_follow_their_spelling};
use crate::text_frontend::syllables::{pinyin_split, syllables};
use crate::text_frontend::tone_sandhi::{
    is_strong, plain_syllables_keep_their_tones, sandhi_tones, split_of, tone_of, ToneSandhi,
};
use crate::{Error, Language};
use jieba_rs::Jieba;
use vstd::hash_map::StringHashMap;
use vstd::prelude::*;

verus! {

/// The reading of a character: a syllable without its tone, and the tone.
pub open spec fn reading_of(pinyin: Option<Seq<char>>) -> Option<(Seq<char>, u32)> {
    match pinyin {
        None => None,
        Some(s) => if s.len() == 0 {
            None
        } else if is_digit(s.last()) {
            Some((s.drop_last(), (s.last() as u32 - '0' as u32) as u32))
        } else {
            Some((s, 5))
        },
    }
}

/// The reading of each character of a word.
pub open spec fn readings(word: Seq<char>) -> Seq<Option<(Seq<char>, u32)>> {
    Seq::new(word.len(), |i: int| reading_of(pinyin_of(word[i])))
}

/// The tone of each reading, 0 where there is none.
pub open spec fn reading_tones(readings: Seq<Option<(Seq<char>, u32)>>) -> Seq<u32> {
    Seq::new(
        readings.len(),
        |i: int|
            match readings[i] {
                None => 0u32,
                Some(r) => r.1,
            },
    )
}

/// The phonemes of a syllable: its initial, where it has one, and its final with the tone; a
/// syllable that is not in the table stays whole.
pub open spec fn syllable_phones(base: Seq<char>, tone: u32) -> Seq<Seq<char>> {
    if syllables().contains_key(base) {
        let (initial, rest) = syllables()[base];
        if initial@.len() > 0 {
            seq![initial@, rest@ + decimal(tone as nat)]
        } else {
            seq![rest@ + decimal(tone as nat)]
        }
    } else {
        seq![base + decimal(tone as nat)]
    }
}

/// Punctuation that is a phoneme of its own.
pub open spec fn spoken_punctuation() -> Seq<char> {
    "!?…,.-"@
}

/// The phonemes of a character: those of the syllable it is given, else those of its
/// reading in the given tone, else itself where it is spoken punctuation.
pub open spec fn char_phones(
    c: char,
    reading: Option<(Seq<char>, u32)>,
    tone: u32,
    given: Option<(Seq<char>, u32)>,
) -> Seq<Seq<char>> {
    match given {
        Some((base, given_tone)) => syllable_phones(base, given_tone),
        None => match reading {
            Some((base, _)) => syllable_phones(base, tone),
            None => if spoken_punctuation().contains(c) {
                seq![seq![c]]
            } else {
                Seq::empty()
            },
        },
    }
}

/// The reading given for character `i` of the text, if any.
pub open spec fn given_at(given: Seq<Option<(Seq<char>, u32)>>, i: nat) -> Option<
    (Seq<char>, u32),
> {
    if i < given.len() {
        given[i as int]
    } else {
        None
    }
}

/// The phonemes of each character of a Chinese word that starts at character `at`.
pub open spec fn chinese_word(
    word: Seq<char>,
    readings: Seq<Option<(Seq<char>, u32)>>,
    tones: Seq<u32>,
    given: Seq<Option<(Seq<char>, u32)>>,
    at: nat,
) -> Seq<Seq<Seq<char>>> {
    Seq::new(
        word.len(),
        |i: int| char_phones(word[i], readings[i], tones[i], given_at(given, (at + i) as nat)),
    )
}

/// The members of all lists, in order.
pub open spec fn flat(lists: Seq<Seq<Seq<char>>>) -> Seq<Seq<char>>
    decreases lists.len(),
{
    if lists.len() == 0 {
        Seq::empty()
    } else {
        flat(lists.drop_last()) + lists.last()
    }
}

/// The length of each list.
pub open spec fn lens(lists: Seq<Seq<Seq<char>>>) -> Seq<nat> {
    Seq::new(lists.len(), |i: int| lists[i].len())
}

/// The sum of the counts.
pub open spec fn sum(counts: Seq<nat>) -> nat
    decreases counts.len(),
{
    if counts.len() == 0 {
        0
    } else {
        sum(counts.drop_last()) + counts.last()
    }
}

/// `n` phonemes shared out over `chars` characters, the first ones taking one more where
/// they do not come out even.
pub open spec fn shares(n: nat, chars: nat) -> Seq<nat> {
    Seq::new(
        chars,
        |i: int|
            n / chars + (if i < n % chars {
                1nat
            } else {
                0nat
            }),
    )
}

/// Whether a word is read as English: its part of speech says so, or it is letters and
/// apostrophes only.
pub open spec fn is_english(word: Seq<char>, pos: Seq<char>) -> bool {
    pos == "eng"@ || (word.len() > 0 && forall|i: int|
        0 <= i < word.len() ==> is_ascii_letter(#[trigger] word[i]) || word[i] == '\'')
}

/// What conversion depends on besides the text: the pronouncing dictionary and the
/// segmenter's dictionary.
pub struct Knowledge {
    pub english: Map<Seq<char>, Seq<char>>,
    pub words: Map<Seq<char>, (nat, Seq<char>)>,
}

/// The phonemes of a word that starts at character `at`, and how many of them belong to
/// each of its characters.
pub open spec fn word_read(
    word: Seq<char>,
    pos: Seq<char>,
    known: Knowledge,
    given: Seq<Option<(Seq<char>, u32)>>,
    at: nat,
) -> (Seq<Seq<char>>, Seq<nat>) {
    if is_english(word, pos) {
        let phones = words(word_spoken(known.english, word));
        (
            phones,
            shares(
                phones.len(),
                if word.len() > 0 {
                    word.len()
                } else {
                    1
                },
            ),
        )
    } else {
        let tones = sandhi_tones(
            word,
            pos,
            reading_tones(readings(word)),
            split_of(word, known.words),
        );
        let lists = chinese_word(word, readings(word), tones, given, at);
        (flat(lists), lens(lists))
    }
}

/// The phonemes of the first `k` words, their counts by character, and the number of
/// characters.
pub open spec fn words_read(
    seg: Seq<(Seq<char>, Seq<char>)>,
    k: nat,
    known: Knowledge,
    given: Seq<Option<(Seq<char>, u32)>>,
) -> (Seq<Seq<char>>, Seq<nat>, nat)
    decreases k,
{
    if k == 0 {
        (Seq::empty(), Seq::empty(), 0)
    } else {
        let (phones, counts, at) = words_read(seg, (k - 1) as nat, known, given);
        let (word_phones, word_counts) = word_read(seg[k - 1].0, seg[k - 1].1, known, given, at);
        (phones + word_phones, counts + word_counts, at + seg[k - 1].0.len())
    }
}

/// Each character of a text in square brackets.
pub open spec fn bracketed(text: Seq<char>) -> Seq<char>
    decreases text.len(),
{
    if text.len() == 0 {
        Seq::empty()
    } else {
        bracketed(text.drop_last()).push('[').push(text.last()).push(']')
    }
}

/// The phonemes as one text; a text without phonemes is bracketed.
pub open spec fn phoneme_text(phones: Seq<Seq<char>>, text: Seq<char>) -> Seq<char> {
    if phones.len() == 0 {
        bracketed(text)
    } else {
        join(phones, " "@)
    }
}

proof fn lemma_sum_add(a: Seq<nat>, b: Seq<nat>)
    ensures
        sum(a + b) == sum(a) + sum(b),
    decreases b.len(),
{
    if b.len() == 0 {
        assert(a + b =~= a);
    } else {
        assert((a + b).drop_last() =~= a + b.drop_last());
        lemma_sum_add(a, b.drop_last());
    }
}

proof fn lemma_flat_len(lists: Seq<Seq<Seq<char>>>)
    ensures
        sum(lens(lists)) == flat(lists).len(),
    decreases lists.len(),
{
    if lists.len() > 0 {
        lemma_flat_len(lists.drop_last());
        assert(lens(lists).drop_last() =~= lens(lists.drop_last()));
    }
}

proof fn lemma_shares_prefix(n: nat, chars: nat, k: nat)
    requires
        k <= chars,
        chars > 0,
    ensures
        sum(shares(n, chars).take(k as int)) == k * (n / chars) + (if k < n % chars {
            k
        } else {
            n % chars
        }),
    decreases k,
{
    let all = shares(n, chars);
    let q = n / chars;
    if k == 0 {
        assert(all.take(0) =~= Seq::empty());
        assert(0 * q == 0) by (nonlinear_arith);
    } else {
        lemma_shares_prefix(n, chars, (k - 1) as nat);
        assert(all.take(k as int).drop_last() =~= all.take(k - 1));
        assert(k * q == (k - 1) * q + q) by (nonlinear_arith);
    }
}

/// Sharing out loses nothing: the shares of `n` add up to `n`.
pub proof fn shares_add_up(n: nat, chars: nat)
    requires
        chars > 0,
    ensures
        sum(shares(n, chars)) == n,
{
    lemma_shares_prefix(n, chars, chars);
    assert(shares(n, chars).take(chars as int) =~= shares(n, chars));
    vstd::arithmetic::div_mod::lemma_fundamental_div_mod(n as int, chars as int);
}

proof fn lemma_word_read(
    word: Seq<char>,
    pos: Seq<char>,
    known: Knowledge,
    given: Seq<Option<(Seq<char>, u32)>>,
    at: nat,
)
    ensures
        sum(word_read(word, pos, known, given, at).1) == word_read(
            word,
            pos,
            known,
            given,
            at,
        ).0.len(),
        word.len() > 0 ==> word_read(word, pos, known, given, at).1.len() == word.len(),
{
    if is_english(word, pos) {
        shares_add_up(
            words(word_spoken(known.english, word)).len(),
            if word.len() > 0 {
                word.len()
            } else {
                1
            },
        );
    } else {
        let tones = sandhi_tones(
            word,
            pos,
            reading_tones(readings(word)),
            split_of(word, known.words),
        );
        lemma_flat_len(chinese_word(word, readings(word), tones, given, at));
    }
}

/// The counts account for every phoneme, and where no word is empty there is one count for
/// each character.
pub proof fn counts_match_phonemes(
    seg: Seq<(Seq<char>, Seq<char>)>,
    k: nat,
    known: Knowledge,
    given: Seq<Option<(Seq<char>, u32)>>,
)
    requires
        k <= seg.len(),
    ensures
        sum(words_read(seg, k, known, given).1) == words_read(seg, k, known, given).0.len(),
        words_read(seg, k, known, given).2 == text_of(seg.take(k as int)).len(),
        no_empty_word(seg) ==> words_read(seg, k, known, given).1.len() == text_of(
            seg.take(k as int),
        ).len(),
    decreases k,
{
    if k == 0 {
        assert(words_of(seg.take(0)) =~= Seq::empty());
    } else {
        counts_match_phonemes(seg, (k - 1) as nat, known, given);
        let (phones, counts, at) = words_read(seg, (k - 1) as nat, known, given);
        let (word_phones, word_counts) = word_read(seg[k - 1].0, seg[k - 1].1, known, given, at);
        lemma_word_read(seg[k - 1].0, seg[k - 1].1, known, given, at);
        lemma_sum_add(counts, word_counts);
        assert(words_of(seg.take(k as int)).drop_last() =~= words_of(seg.take(k - 1)));
    }
}

/// A reading given for a character: a syllable without its tone, and the tone.
#[derive(Debug)]
pub struct PinyinOverride {
    pub base: String,
    pub tone: u32,
}

impl Clone for PinyinOverride {
    fn clone(&self) -> (r: Self)
        ensures
            r.base@ == self.base@,
            r.tone == self.tone,
    {
        PinyinOverride { base: self.base.clone(), tone: self.tone }
    }
}

/// The readings given for a text.
pub open spec fn given_view(given: Seq<Option<PinyinOverride>>) -> Seq<Option<(Seq<char>, u32)>> {
    given.map_values(
        |g: Option<PinyinOverride>|
            match g {
                Some(p) => Some((p.base@, p.tone)),
                None => None,
            },
    )
}

/// Readings by their views.
pub open spec fn readings_view(readings: Seq<Option<(String, u32)>>) -> Seq<
    Option<(Seq<char>, u32)>,
> {
    readings.map_values(
        |r: Option<(String, u32)>|
            match r {
                Some(p) => Some((p.0@, p.1)),
                None => None,
            },
    )
}

/// Counts as numbers.
pub open spec fn counts_view(counts: Seq<usize>) -> Seq<nat> {
    counts.map_values(|n: usize| n as nat)
}

/// The reading that a pinyin spelling stands for.
pub fn parse_reading(pinyin: Option<String>) -> (r: Option<(String, u32)>)
    ensures
        ({
            let reading = reading_of(
                match pinyin {
                    Some(s) => Some(s@),
                    None => None,
                },
            );
            match r {
                Some(p) => reading == Some((p.0@, p.1)),
                None => reading is None,
            }
        }),
{
    let s = match pinyin {
        None => {
            return None;
        },
        Some(s) => s,
    };
    let chars = chars_of(s.as_str());
    if chars.len() == 0 {
        return None;
    }
    let last = chars[chars.len() - 1];
    if digit(last) {
        let base = string_between(chars.as_slice(), 0, chars.len() - 1);
        assert(base@ =~= s@.drop_last());
        Some((base, last as u32 - '0' as u32))
    } else {
        Some((s, 5))
    }
}

/// Adds a list to the lists and its length to the counts.
proof fn lemma_flat_push(lists: Seq<Seq<Seq<char>>>, list: Seq<Seq<char>>)
    ensures
        flat(lists.push(list)) == flat(lists) + list,
        lens(lists.push(list)) == lens(lists).push(list.len()),
{
    assert(lists.push(list).drop_last() =~= lists);
    assert(lens(lists.push(list)) =~= lens(lists).push(list.len()));
}

/// Grapheme-to-phoneme converter for multiple languages.
pub struct G2PConverter {
    pinyin_map: StringHashMap<(&'static str, &'static str)>,
    jieba: Jieba,
    tone_sandhi: ToneSandhi,
    cmudict: StringHashMap<String>,
}

impl G2PConverter {
    #[verifier::type_invariant]
    spec fn holds_the_syllables(self) -> bool {
        self.pinyin_map@ == syllables()
    }

    /// What the converter knows besides the text.
    pub closed spec fn known(&self) -> Knowledge {
        Knowledge { english: dict_view(self.cmudict@), words: dictionary(self.jieba) }
    }

    /// A converter with the given pronouncing dictionary: one word per line, a tab, its
    /// ARPABET phonemes.
    pub fn new(cmudict: &str) -> (r: Result<Self, Error>)
        ensures
            r matches Ok(g) && g.known().english == entries(lines(cmudict@)),
    {
        Ok(
            Self {
                pinyin_map: pinyin_split(),
                jieba: new_segmenter(),
                tone_sandhi: ToneSandhi::new(),
                cmudict: load_cmudict(cmudict),
            },
        )
    }

    /// Adds the phonemes of a syllable.
    fn push_syllable(&self, base: &str, tone: u32, phonemes: &mut Vec<String>)
        ensures
            views(final(phonemes)@) == views(old(phonemes)@) + syllable_phones(base@, tone),
    {
        proof {
            use_type_invariant(self);
        }
        let ghost before = views(phonemes@);
        match self.pinyin_map.get(base) {
            Some(parts) => {
                if !parts.0.is_empty() {
                    let initial = parts.0.to_owned();
                    proof {
                        lemma_views_push(phonemes@, initial);
                    }
                    phonemes.push(initial);
                }
                let mut rest = parts.1.to_owned();
                rest.push_str(decimal_string(tone as u64).as_str());
                proof {
                    lemma_views_push(phonemes@, rest);
                }
                phonemes.push(rest);
            },
            None => {
                let mut whole = base.to_owned();
                whole.push_str(decimal_string(tone as u64).as_str());
                proof {
                    lemma_views_push(phonemes@, whole);
                }
                phonemes.push(whole);
            },
        }
        assert(views(phonemes@) =~= before + syllable_phones(base@, tone));
    }

    /// Adds the phonemes of a Chinese word with the given readings and tones, and their
    /// number for each character. The word starts at character `at` of the text.
    pub fn push_chinese_word(
        &self,
        word: &str,
        readings: &Vec<Option<(String, u32)>>,
        tones: &Vec<u32>,
        given: &Vec<Option<PinyinOverride>>,
        at: usize,
        phonemes: &mut Vec<String>,
        word2ph: &mut Vec<usize>,
    )
        requires
            readings@.len() == word@.len(),
            tones@.len() == word@.len(),
        ensures
            ({
                let lists = chinese_word(
                    word@,
                    readings_view(readings@),
                    tones@,
                    given_view(given@),
                    at as nat,
                );
                &&& views(final(phonemes)@) == views(old(phonemes)@) + flat(lists)
                &&& counts_view(final(word2ph)@) == counts_view(old(word2ph)@) + lens(lists)
            }),
    {
        let chars = chars_of(word);
        let ghost lists = chinese_word(
            word@,
            readings_view(readings@),
            tones@,
            given_view(given@),
            at as nat,
        );
        let ghost phones = views(phonemes@);
        let ghost counts = counts_view(word2ph@);
        assert(lists.take(0) =~= Seq::empty());
        assert(phones + flat(lists.take(0)) =~= phones);
        assert(counts + lens(lists.take(0)) =~= counts);
        for i in 0..chars.len()
            invariant
                chars@ == word@,
                readings@.len() == word@.len(),
                tones@.len() == word@.len(),
                lists == chinese_word(
                    word@,
                    readings_view(readings@),
                    tones@,
                    given_view(given@),
                    at as nat,
                ),
                views(phonemes@) == phones + flat(lists.take(i as int)),
                counts_view(word2ph@) == counts + lens(lists.take(i as int)),
        {
            let ghost done = views(phonemes@);
            let before: usize = phonemes.len();
            let ghost list = lists[i as int];
            proof {
                assert(lists.take(i + 1) =~= lists.take(i as int).push(list));
                lemma_flat_push(lists.take(i as int), list);
                assert(done.len() == before);
            }
            let mut override_at: Option<usize> = None;
            if at < given.len() && i < given.len() - at {
                if given[at + i].is_some() {
                    override_at = Some(at + i);
                }
            }
            match override_at {
                Some(k) => {
                    if let Some(p) = &given[k] {
                        assert(given_view(given@)[k as int] == Some((p.base@, p.tone)));
                        self.push_syllable(p.base.as_str(), p.tone, phonemes);
                    }
                },
                None => {
                    assert(given_at(given_view(given@), (at + i) as nat) is None);
                    match &readings[i] {
                        Some(r) => {
                            assert(readings_view(readings@)[i as int] == Some((r.0@, r.1)));
                            self.push_syllable(r.0.as_str(), tones[i], phonemes);
                        },
                        None => {
                            assert(readings_view(readings@)[i as int] is None);
                            if one_of(chars[i], "!?…,.-") {
                                let mark = string_between(chars.as_slice(), i, i + 1);
                                proof {
                                    assert(mark@ =~= seq![chars@[i as int]]);
                                    lemma_views_push(phonemes@, mark);
                                }
                                phonemes.push(mark);
                            }
                            assert(views(phonemes@) =~= done + list);
                        },
                    }
                },
            }
            assert(views(phonemes@) == done + list);
            assert(done + list =~= phones + (flat(lists.take(i as int)) + list));
            assert(phonemes@.len() == views(phonemes@).len());
            let n: usize = phonemes.len() - before;
            let ghost counted = word2ph@;
            word2ph.push(n);
            assert(counts_view(word2ph@) =~= counts_view(counted).push(n as nat));
            assert(counts_view(counted).push(list.len()) =~= counts + lens(
                lists.take(i as int),
            ).push(list.len()));
        }
        assert(lists.take(lists.len() as int) =~= lists);
    }

    /// Adds the phonemes of an English word, shared out over its characters.
    pub fn push_english_word(
        &self,
        word: &str,
        phonemes: &mut Vec<String>,
        word2ph: &mut Vec<usize>,
    )
        ensures
            ({
                let phones = words(word_spoken(self.known().english, word@));
                &&& views(final(phonemes)@) == views(old(phonemes)@) + phones
                &&& counts_view(final(word2ph)@) == counts_view(old(word2ph)@) + shares(
                    phones.len(),
                    if word@.len() > 0 {
                        word@.len()
                    } else {
                        1
                    },
                )
            }),
    {
        let spoken = speak_word(&self.cmudict, word);
        let mut parts = split_words(spoken.as_str());
        let ghost phones = views(parts@);
        let n: usize = parts.len();
        let len: usize = chars_of(word).len();
        let chars: usize = if len > 0 {
            len
        } else {
            1
        };
        let ghost before = phonemes@;
        phonemes.append(&mut parts);
        assert(views(phonemes@) =~= views(before) + phones);
        let each: usize = n / chars;
        let more: usize = n % chars;
        let ghost counts = counts_view(word2ph@);
        let ghost all = shares(n as nat, chars as nat);
        assert(counts + all.take(0) =~= counts);
        for i in 0..chars
            invariant
                chars > 0,
                each == n / chars,
                more == n % chars,
                all == shares(n as nat, chars as nat),
                counts_view(word2ph@) == counts + all.take(i as int),
        {
            let ghost counted = word2ph@;
            assert(more > 0 ==> each < usize::MAX) by (nonlinear_arith)
                requires
                    each == n / chars,
                    more == n % chars,
                    chars > 0,
            ;
            let share: usize = if i < more {
                each + 1
            } else {
                each
            };
            word2ph.push(share);
            assert(counts_view(word2ph@) =~= counts_view(counted).push(share as nat));
            assert(all.take(i + 1) =~= all.take(i as int).push(share as nat));
            assert(counts + all.take(i as int).push(share as nat) =~= (counts + all.take(
                i as int,
            )).push(share as nat));
        }
        assert(all.take(chars as int) =~= all);
    }

    /// The readings of the characters of a word.
    fn read_chars(word: &str) -> (r: Vec<Option<(String, u32)>>)
        ensures
            readings_view(r@) == readings(word@),
    {
        let chars = chars_of(word);
        let mut r: Vec<Option<(String, u32)>> = Vec::new();
        for i in 0..chars.len()
            invariant
                chars@ == word@,
                readings_view(r@) == readings(word@).take(i as int),
        {
            let ghost before = r@;
            let reading = parse_reading(pinyin_with_tone(chars[i]));
            r.push(reading);
            assert(readings_view(r@) =~= readings(word@).take(i + 1)) by {
                assert(readings_view(r@).drop_last() =~= readings_view(before));
            }
        }
        assert(readings_view(r@) =~= readings(word@));
        r
    }

    /// Whether a word is read as English.
    fn reads_as_english(word: &str, pos: &str) -> (r: bool)
        ensures
            r == is_english(word@, pos@),
    {
        if same(pos, "eng") {
            return true;
        }
        let chars = chars_of(word);
        for i in 0..chars.len()
            invariant
                chars@ == word@,
                pos@ != "eng"@,
                forall|j: int|
                    0 <= j < i ==> is_ascii_letter(#[trigger] word@[j]) || word@[j] == '\'',
        {
            if !ascii_letter(chars[i]) && chars[i] != '\'' {
                assert(!(is_ascii_letter(word@[i as int]) || word@[i as int] == '\''));
                return false;
            }
        }
        chars.len() > 0
    }

    /// The phonemes of the given words, and their number for each character.
    pub fn read_segments(
        &self,
        seg: &Vec<(String, String)>,
        given: &Vec<Option<PinyinOverride>>,
    ) -> (r: (Vec<String>, Vec<usize>))
        ensures
            ({
                let read = words_read(
                    seg_view(seg@),
                    seg@.len(),
                    self.known(),
                    given_view(given@),
                );
                views(r.0@) == read.0 && counts_view(r.1@) == read.1
            }),
    {
        let ghost all = seg_view(seg@);
        let ghost known = self.known();
        let ghost over = given_view(given@);
        let mut phonemes: Vec<String> = Vec::new();
        let mut word2ph: Vec<usize> = Vec::new();
        let mut at: usize = 0;
        assert(views(phonemes@) =~= Seq::empty());
        assert(counts_view(word2ph@) =~= Seq::empty());
        for k in 0..seg.len()
            invariant
                all == seg_view(seg@),
                known == self.known(),
                over == given_view(given@),
                ({
                    let read = words_read(all, k as nat, known, over);
                    &&& views(phonemes@) == read.0
                    &&& counts_view(word2ph@) == read.1
                    &&& at == if read.2 < over.len() {
                        read.2
                    } else {
                        over.len()
                    }
                }),
        {
            let word = seg[k].0.as_str();
            let pos = seg[k].1.as_str();
            assert(all[k as int] == (word@, pos@));
            let ghost so_far = words_read(all, k as nat, known, over).2;
            if Self::reads_as_english(word, pos) {
                self.push_english_word(word, &mut phonemes, &mut word2ph);
            } else {
                let chars = Self::read_chars(word);
                let mut tones: Vec<u32> = Vec::new();
                for i in 0..chars.len()
                    invariant
                        readings_view(chars@) == readings(word@),
                        tones@ == reading_tones(readings(word@)).take(i as int),
                {
                    assert(readings_view(chars@)[i as int] == match chars@[i as int] {
                        Some(p) => Some((p.0@, p.1)),
                        None => None,
                    });
                    let tone: u32 = match &chars[i] {
                        Some(r) => r.1,
                        None => 0,
                    };
                    tones.push(tone);
                }
                assert(readings_view(chars@).len() == chars@.len());
                assert(tones@ =~= reading_tones(readings(word@)));
                self.tone_sandhi.modified_tone(word, pos, &mut tones, &self.jieba);
                proof {
                    let lists = chinese_word(word@, readings(word@), tones@, over, at as nat);
                    assert(lists =~= chinese_word(word@, readings(word@), tones@, over, so_far));
                }
                self.push_chinese_word(
                    word,
                    &chars,
                    &tones,
                    given,
                    at,
                    &mut phonemes,
                    &mut word2ph,
                );
            }
            let len: usize = chars_of(word).len();
            if len < given.len() - at {
                at = at + len;
            } else {
                at = given.len();
            }
        }
        (phonemes, word2ph)
    }

    /// Converts Chinese text to phonemes with the number of phonemes of each character. The
    /// readings of `given` take the place of the characters' own.
    pub fn convert_chinese_with_word2ph_and_overrides(
        &self,
        text: &str,
        given: &Vec<Option<PinyinOverride>>,
    ) -> (r: Result<(String, Vec<usize>), Error>)
        ensures
            r matches Ok(p) && {
                let read = chinese_read(self.known(), text@, given_view(given@));
                &&& p.0@ == phoneme_text(read.0, text@)
                &&& counts_view(p.1@) == read.1
                &&& sum(counts_view(p.1@)) == read.0.len()
                &&& p.1@.len() == text@.len()
            },
    {
        let tagged = tag_words(&self.jieba, text);
        let ghost seg = seg_view(tagged@);
        proof {
            assert forall|i: int| 0 <= i < seg.len() implies (#[trigger] seg[i]).0.len() > 0 by {
                assert(tagged@[i].0@.len() > 0);
            }
            pre_merge_makes_no_empty_word(seg);
            pre_merge_keeps_text(seg);
        }
        let merged = self.tone_sandhi.pre_merge_for_modify(tagged);
        let (phonemes, word2ph) = self.read_segments(&merged, given);
        proof {
            let all = seg_view(merged@);
            counts_match_phonemes(all, all.len(), self.known(), given_view(given@));
            assert(all.take(all.len() as int) =~= all);
            assert(counts_view(word2ph@).len() == word2ph@.len());
            assert(views(phonemes@).len() == phonemes@.len());
        }
        let spoken = if phonemes.len() == 0 {
            bracket(text)
        } else {
            join_strings(&phonemes, " ")
        };
        Ok((spoken, word2ph))
    }

    /// Converts Chinese text to phonemes with the number of phonemes of each character.
    pub fn convert_chinese_with_word2ph(&self, text: &str) -> (r: Result<
        (String, Vec<usize>),
        Error,
    >)
        ensures
            r matches Ok(p) && {
                let read = chinese_read(self.known(), text@, Seq::empty());
                &&& p.0@ == phoneme_text(read.0, text@)
                &&& counts_view(p.1@) == read.1
                &&& sum(counts_view(p.1@)) == read.0.len()
                &&& p.1@.len() == text@.len()
            },
    {
        let given: Vec<Option<PinyinOverride>> = Vec::new();
        assert(given_view(given@) =~= Seq::empty());
        self.convert_chinese_with_word2ph_and_overrides(text, &given)
    }

    /// The phonemes of an English word, space-separated.
    pub fn english_word_to_phonemes(&self, word: &str) -> (r: String)
        ensures
            r@ == word_spoken(self.known().english, word@),
    {
        speak_word(&self.cmudict, word)
    }

    /// Converts English text to ARPABET phonemes, word by word.
    fn convert_english(&self, text: &str) -> (r: String)
        ensures
            r@ == join(spoken_words(self.known().english, words(text@)), " "@),
    {
        let parts = split_words(text);
        let ghost all = words(text@);
        let ghost dict = self.known().english;
        let mut spoken: Vec<String> = Vec::new();
        assert(views(spoken@) =~= Seq::empty());
        for i in 0..parts.len()
            invariant
                all == views(parts@),
                dict == self.known().english,
                views(spoken@) == spoken_words(dict, all).take(i as int),
        {
            let word = self.english_word_to_phonemes(parts[i].as_str());
            proof {
                lemma_views_push(spoken@, word);
                assert(all[i as int] == parts@[i as int]@);
                assert(spoken_words(dict, all).take(i + 1) =~= spoken_words(dict, all).take(
                    i as int,
                ).push(word@));
            }
            spoken.push(word);
        }
        assert(spoken_words(dict, all).take(all.len() as int) =~= spoken_words(dict, all));
        assert(all.len() == parts@.len());
        join_strings(&spoken, " ")
    }

    /// Converts text to phonemes.
    pub fn convert(&self, text: &str, language: Language) -> (r: Result<String, Error>)
        ensures
            r matches Ok(s) && s@ == converted(self.known(), text@, language),
    {
        let language = match language {
            Language::Auto => dominant_language(text),
            _ => language,
        };
        match language {
            Language::English => Ok(self.convert_english(text)),
            Language::Japanese | Language::Korean => Ok(bracket(text)),
            _ => {
                match self.convert_chinese_with_word2ph(text) {
                    Ok((phonemes, _)) => Ok(phonemes),
                    Err(e) => Err(e),
                }
            },
        }
    }
}

/// The phonemes of a Chinese text, and their number for each character.
pub open spec fn chinese_read(
    known: Knowledge,
    text: Seq<char>,
    given: Seq<Option<(Seq<char>, u32)>>,
) -> (Seq<Seq<char>>, Seq<nat>) {
    let seg = pre_merged(tagged_words(known.words, text));
    let read = words_read(seg, seg.len(), known, given);
    (read.0, read.1)
}

/// The phonemes of each English word.
pub open spec fn spoken_words(
    dict: Map<Seq<char>, Seq<char>>,
    words: Seq<Seq<char>>,
) -> Seq<Seq<char>> {
    Seq::new(words.len(), |i: int| word_spoken(dict, words[i]))
}

/// The phonemes of a text in the given language.
pub open spec fn converted(known: Knowledge, text: Seq<char>, language: Language) -> Seq<char> {
    match if language == Language::Auto {
        dominant(text)
    } else {
        language
    } {
        Language::English => join(spoken_words(known.english, words(text)), " "@),
        Language::Japanese => bracketed(text),
        Language::Korean => bracketed(text),
        _ => phoneme_text(chinese_read(known, text, Seq::empty()).0, text),
    }
}

/// Whether a character is a Chinese ideograph.
pub open spec fn is_ideograph(c: char) -> bool {
    '\u{4E00}' <= c <= '\u{9FFF}'
}

/// Whether a character is Japanese kana.
pub open spec fn is_kana(c: char) -> bool {
    '\u{3040}' <= c <= '\u{30FF}'
}

/// Whether a character is a Korean syllable.
pub open spec fn is_hangul_syllable(c: char) -> bool {
    '\u{AC00}' <= c <= '\u{D7A3}'
}

/// The language whose script is most frequent in a text; of equals Chinese before Japanese
/// before Korean before English.
pub open spec fn dominant(text: Seq<char>) -> Language {
    let chinese = count(text, |c: char| is_ideograph(c));
    let english = count(text, |c: char| is_ascii_letter(c));
    let japanese = count(text, |c: char| is_kana(c));
    let korean = count(text, |c: char| is_hangul_syllable(c));
    if chinese >= japanese && chinese >= korean && chinese >= english {
        Language::Chinese
    } else if japanese >= korean && japanese >= english {
        Language::Japanese
    } else if korean >= english {
        Language::Korean
    } else {
        Language::English
    }
}

/// The language whose script is most frequent in a text.
pub fn dominant_language(text: &str) -> (r: Language)
    ensures
        r == dominant(text@),
{
    let chars = chars_of(text);
    let mut chinese: usize = 0;
    let mut english: usize = 0;
    let mut japanese: usize = 0;
    let mut korean: usize = 0;
    for i in 0..chars.len()
        invariant
            chars@ == text@,
            chinese == count(chars@.take(i as int), |c: char| is_ideograph(c)),
            english == count(chars@.take(i as int), |c: char| is_ascii_letter(c)),
            japanese == count(chars@.take(i as int), |c: char| is_kana(c)),
            korean == count(chars@.take(i as int), |c: char| is_hangul_syllable(c)),
    {
        let c = chars[i];
        proof {
            let done = chars@.take(i as int);
            assert(chars@.take(i + 1).drop_last() =~= done);
            lemma_count(done, |c: char| is_ideograph(c));
            lemma_count(done, |c: char| is_ascii_letter(c));
            lemma_count(done, |c: char| is_kana(c));
            lemma_count(done, |c: char| is_hangul_syllable(c));
        }
        if '\u{4E00}' <= c && c <= '\u{9FFF}' {
            chinese = chinese + 1;
        } else if ascii_letter(c) {
            english = english + 1;
        } else if '\u{3040}' <= c && c <= '\u{30FF}' {
            japanese = japanese + 1;
        } else if '\u{AC00}' <= c && c <= '\u{D7A3}' {
            korean = korean + 1;
        }
    }
    assert(chars@.take(chars@.len() as int) =~= chars@);
    if chinese >= japanese && chinese >= korean && chinese >= english {
        Language::Chinese
    } else if japanese >= korean && japanese >= english {
        Language::Japanese
    } else if korean >= english {
        Language::Korean
    } else {
        Language::English
    }
}

/// Each character of a text in square brackets.
pub fn bracket(text: &str) -> (r: String)
    ensures
        r@ == bracketed(text@),
{
    let chars = chars_of(text);
    let mut r = String::new();
    for i in 0..chars.len()
        invariant
            chars@ == text@,
            r@ == bracketed(chars@.take(i as int)),
    {
        assert(chars@.take(i + 1).drop_last() =~= chars@.take(i as int));
        r.push('[');
        r.push(chars[i]);
        r.push(']');
    }
    assert(chars@.take(chars@.len() as int) =~= chars@);
    r
}

/// A reading spells its pinyin back: the syllable followed by the digit of the tone is the pinyin.
/// A pinyin without a digit is a syllable of the fifth tone, and there is no reading of nothing.
pub proof fn readings_spell_their_pinyin(pinyin: Seq<char>)
    ensures
        pinyin.len() == 0 ==> reading_of(Some(pinyin)) is None,
        pinyin.len() > 0 ==> reading_of(Some(pinyin)) is Some,
        pinyin.len() > 0 && '0' <= pinyin.last() <= '9' ==> {
            let (base, tone) = reading_of(Some(pinyin))->0;
            &&& base + decimal(tone as nat) == pinyin
            &&& tone == pinyin.last() as int - '0' as int
            &&& base.len() == pinyin.len() - 1
        },
        pinyin.len() > 0 && !('0' <= pinyin.last() <= '9') ==> reading_of(Some(pinyin)) == Some(
            (pinyin, 5u32),
        ),
        reading_of(None) is None,
{
    if pinyin.len() > 0 && '0' <= pinyin.last() <= '9' {
        let (base, tone) = reading_of(Some(pinyin))->0;
        assert(decimal(tone as nat) =~= seq![pinyin.last()]);
        assert(base + decimal(tone as nat) =~= pinyin);
    }
}

/// The tone that sandhi starts from is that of the reading.
pub proof fn readings_and_sandhi_agree_on_tones(word: Seq<char>, i: int)
    requires
        0 <= i < word.len(),
        pinyin_of(word[i]) is None || pinyin_of(word[i])->0.len() > 0,
    ensures
        reading_tones(readings(word))[i] == tone_of(pinyin_of(word[i])),
        reading_tones(readings(word)).len() == word.len(),
{
}

/// A syllable is one phoneme or two, the last of which ends with the digit of the tone; the tone
/// changes nothing else.
pub proof fn finals_end_with_their_tone(base: Seq<char>, tone: u32, other: u32)
    requires
        base.len() > 0,
        tone < 10,
        other < 10,
    ensures
        ({
            let a = syllable_phones(base, tone);
            let b = syllable_phones(base, other);
            &&& a.len() == 1 || a.len() == 2
            &&& a.last().len() > 1
            &&& a.last().last() as int == '0' as int + tone
            &&& a.drop_last() == b.drop_last()
            &&& a.last().drop_last() == b.last().drop_last()
        }),
{
    let a = syllable_phones(base, tone);
    let b = syllable_phones(base, other);
    assert(decimal(tone as nat) =~= seq![digit_char(tone as nat)]);
    assert(decimal(other as nat) =~= seq![digit_char(other as nat)]);
    if syllables().contains_key(base) {
        syllables_follow_their_spelling(base);
        let rest = syllables()[base].1@;
        assert(rest.len() > 0);
        assert((rest + decimal(tone as nat)).drop_last() =~= rest);
        assert((rest + decimal(other as nat)).drop_last() =~= rest);
    } else {
        assert((base + decimal(tone as nat)).drop_last() =~= base);
        assert((base + decimal(other as nat)).drop_last() =~= base);
    }
    assert(a.drop_last() =~= b.drop_last());
}

/// A syllable of the table is spoken as its initial, where it has one, and its final with the tone,
/// both as its spelling gives them; a syllable that is not in the table is spelled out with its tone.
pub proof fn syllables_are_spoken_by_their_spelling(base: Seq<char>, tone: u32)
    requires
        base.len() > 0,
    ensures
        !syllables().contains_key(base) ==> syllable_phones(base, tone) == seq![
            base + decimal(tone as nat),
        ],
        syllables().contains_key(base) ==> {
            let n = initial_len(base);
            let last = final_of(base.take(n), base.skip(n)) + decimal(tone as nat);
            syllable_phones(base, tone) == if n == 0 {
                seq![last]
            } else {
                seq![base.take(n), last]
            }
        },
{
    if syllables().contains_key(base) {
        syllables_follow_their_spelling(base);
    }
}

/// Where no sandhi rule speaks of a character, its last phoneme ends with the digit that its pinyin
/// ends with.
pub proof fn plain_characters_are_spoken_in_their_tone(
    word: Seq<char>,
    pos: Seq<char>,
    known: Knowledge,
    given: Seq<Option<(Seq<char>, u32)>>,
    at: nat,
    pinyin: Seq<char>,
    i: int,
)
    requires
        0 <= i < word.len(),
        given_at(given, (at + i) as nat) is None,
        pinyin_of(word[i]) == Some(pinyin),
        pinyin.len() > 1,
        pinyin.last() == '1' || pinyin.last() == '2' || pinyin.last() == '4',
        word[i] != '不',
        word[i] != '一',
        i == 0 || word[i] != word[i - 1],
        !word.contains('个'),
        !"吧呢哈啊呐噻嘛吖嗨哦哒额滴哩哟喽啰耶喔诶的地得了着过们子上下里来去"@.contains(word.last()),
        is_strong(word),
        is_strong(split_of(word, known.words).0),
        is_strong(split_of(word, known.words).1),
    ensures
        ({
            let tones = sandhi_tones(
                word,
                pos,
                reading_tones(readings(word)),
                split_of(word, known.words),
            );
            let phones = chinese_word(word, readings(word), tones, given, at)[i];
            &&& phones.len() > 0
            &&& phones.last().len() > 1
            &&& phones.last().last() == pinyin.last()
            &&& phones == syllable_phones(
                pinyin.drop_last(),
                (pinyin.last() as u32 - '0' as u32) as u32,
            )
        }),
{
    readings_spell_their_pinyin(pinyin);
    let split = split_of(word, known.words);
    let before = reading_tones(readings(word));
    let (base, tone) = reading_of(Some(pinyin))->0;
    assert(readings(word)[i] == Some((base, tone)));
    assert(before[i] == tone);
    plain_syllables_keep_their_tones(word, pos, before, split, i);
    assert(base =~= pinyin.drop_last()) by {
        assert(base == pinyin.drop_last());
    }
    finals_end_with_their_tone(base, tone, tone);
}

/// A reading that is given takes the place of the character's own, whatever that is; a character
/// without a reading is spoken only where it is one of six marks, as itself.
pub proof fn given_readings_win(
    c: char,
    reading: Option<(Seq<char>, u32)>,
    tone: u32,
    base: Seq<char>,
    given_tone: u32,
)
    ensures
        char_phones(c, reading, tone, Some((base, given_tone))) == syllable_phones(
            base,
            given_tone,
        ),
        char_phones(c, Some((base, given_tone)), tone, None) == syllable_phones(base, tone),
        char_phones(c, None, tone, None) == if c == '!' || c == '?' || c == '…' || c == ',' || c
            == '.' || c == '-' {
            seq![seq![c]]
        } else {
            Seq::empty()
        },
{
    reveal_strlit("!?…,.-");
    let marks = spoken_punctuation();
    assert(marks[0] == '!' && marks[1] == '?' && marks[2] == '…' && marks[3] == ',' && marks[4]
        == '.' && marks[5] == '-');
}

/// The phonemes of each character stand in those of its word, in order and together.
pub proof fn characters_are_spoken_in_order(lists: Seq<Seq<Seq<char>>>, i: int)
    requires
        0 <= i < lists.len(),
    ensures
        flat(lists).len() == sum(lens(lists)),
        ({
            let from = sum(lens(lists.take(i))) as int;
            &&& from + lists[i].len() <= flat(lists).len()
            &&& flat(lists).subrange(from, from + lists[i].len()) == lists[i]
        }),
    decreases lists.len(),
{
    lemma_flat_len(lists);
    let rest = lists.drop_last();
    let from = sum(lens(lists.take(i))) as int;
    lemma_flat_len(lists.take(i));
    if i < rest.len() {
        characters_are_spoken_in_order(rest, i);
        assert(rest.take(i) =~= lists.take(i));
        assert(flat(lists).subrange(from, from + lists[i].len()) =~= flat(rest).subrange(
            from,
            from + lists[i].len(),
        ));
    } else {
        assert(lists.take(i) =~= rest);
        assert(flat(lists).subrange(from, from + lists[i].len()) =~= lists[i]);
    }
}

/// The phonemes of each word stand in those of the text, in order and together, and so do the counts
/// of its characters; a word is read by itself, by its part of speech and by where it stands.
pub proof fn words_are_spoken_in_order(
    seg: Seq<(Seq<char>, Seq<char>)>,
    k: nat,
    known: Knowledge,
    given: Seq<Option<(Seq<char>, u32)>>,
    i: int,
)
    requires
        0 <= i < k <= seg.len(),
    ensures
        ({
            let (phones, counts, at) = words_read(seg, i as nat, known, given);
            let (word_phones, word_counts) = word_read(seg[i].0, seg[i].1, known, given, at);
            let all = words_read(seg, k, known, given);
            &&& at == text_of(seg.take(i)).len()
            &&& occurs(all.0, word_phones, phones.len() as int)
            &&& counts.len() + word_counts.len() <= all.1.len()
            &&& all.1.subrange(counts.len() as int, (counts.len() + word_counts.len()) as int)
                == word_counts
        }),
    decreases k,
{
    let (phones, counts, at) = words_read(seg, i as nat, known, given);
    let (word_phones, word_counts) = word_read(seg[i].0, seg[i].1, known, given, at);
    let all = words_read(seg, k, known, given);
    counts_match_phonemes(seg, i as nat, known, given);
    let p = phones.len() as int;
    let c = counts.len() as int;
    if i == k - 1 {
        assert(all.0.subrange(p, p + word_phones.len()) =~= word_phones);
        assert(all.1.subrange(c, c + word_counts.len()) =~= word_counts);
    } else {
        words_are_spoken_in_order(seg, (k - 1) as nat, known, given, i);
        let before = words_read(seg, (k - 1) as nat, known, given);
        assert(all.0.subrange(p, p + word_phones.len()) =~= before.0.subrange(
            p,
            p + word_phones.len(),
        ));
        assert(all.1.subrange(c, c + word_counts.len()) =~= before.1.subrange(
            c,
            c + word_counts.len(),
        ));
    }
}

/// Whether phonemes stand among others from a place on.
pub open spec fn occurs(phones: Seq<Seq<char>>, part: Seq<Seq<char>>, at: int) -> bool {
    0 <= at <= at + part.len() <= phones.len() && phones.subrange(at, at + part.len()) == part
}

/// A Chinese word is read character by character, each by its pinyin in its tone behind sandhi; a word
/// of letters is read as an English one.
pub proof fn words_are_read_by_their_script(
    word: Seq<char>,
    pos: Seq<char>,
    known: Knowledge,
    given: Seq<Option<(Seq<char>, u32)>>,
    at: nat,
    i: int,
)
    requires
        0 <= i < word.len(),
    ensures
        ({
            let (phones, counts) = word_read(word, pos, known, given, at);
            let tones = sandhi_tones(
                word,
                pos,
                reading_tones(readings(word)),
                split_of(word, known.words),
            );
            let list = char_phones(
                word[i],
                reading_of(pinyin_of(word[i])),
                tones[i],
                given_at(given, (at + i) as nat),
            );
            let letters = forall|k: int|
                0 <= k < word.len() ==> 'a' <= #[trigger] word[k] <= 'z' || 'A' <= word[k] <= 'Z'
                    || word[k] == '\'';
            &&& counts.len() == word.len()
            &&& letters ==> phones == words(word_spoken(known.english, word))
            &&& !letters && pos != "eng"@ ==> counts[i] == list.len() && occurs(
                phones,
                list,
                sum(counts.take(i)) as int,
            )
        }),
{
    lemma_word_read(word, pos, known, given, at);
    let tones = sandhi_tones(
        word,
        pos,
        reading_tones(readings(word)),
        split_of(word, known.words),
    );
    let lists = chinese_word(word, readings(word), tones, given, at);
    if !is_english(word, pos) {
        characters_are_spoken_in_order(lists, i);
        assert(lens(lists).take(i) =~= lens(lists.take(i)));
    }
}

/// Phonemes are shared out evenly: no character has two more than another, and none has more than one
/// before it.
pub proof fn shares_are_even(n: nat, chars: nat, i: int, j: int)
    requires
        0 <= i <= j < chars,
    ensures
        shares(n, chars).len() == chars,
        shares(n, chars)[j] <= shares(n, chars)[i] <= shares(n, chars)[j] + 1,
{
}

proof fn lemma_bracketed_len(text: Seq<char>)
    ensures
        bracketed(text).len() == 3 * text.len(),
    decreases text.len(),
{
    if text.len() > 0 {
        lemma_bracketed_len(text.drop_last());
    }
}

/// Each character of a bracketed text stands between its own brackets.
pub proof fn brackets_keep_characters(text: Seq<char>, i: int)
    requires
        0 <= i < text.len(),
    ensures
        bracketed(text).len() == 3 * text.len(),
        bracketed(text)[3 * i] == '[',
        bracketed(text)[3 * i + 1] == text[i],
        bracketed(text)[3 * i + 2] == ']',
    decreases text.len(),
{
    let rest = text.drop_last();
    lemma_bracketed_len(text);
    lemma_bracketed_len(rest);
    assert(bracketed(text) == bracketed(rest).push('[').push(text.last()).push(']'));
    if i < rest.len() {
        brackets_keep_characters(rest, i);
    }
}

/// The language of a text has at least as many characters of its script as any other has; of equals
/// Chinese comes before Japanese, Japanese before Korean and Korean before English.
pub proof fn most_characters_decide(text: Seq<char>)
    ensures
        ({
            let chinese = count(text, |c: char| '\u{4E00}' <= c <= '\u{9FFF}');
            let japanese = count(text, |c: char| '\u{3040}' <= c <= '\u{30FF}');
            let korean = count(text, |c: char| '\u{AC00}' <= c <= '\u{D7A3}');
            let english = count(text, |c: char| 'a' <= c <= 'z' || 'A' <= c <= 'Z');
            match dominant(text) {
                Language::Chinese => chinese >= japanese && chinese >= korean && chinese >= english,
                Language::Japanese => japanese > chinese && japanese >= korean && japanese
                    >= english,
                Language::Korean => korean > chinese && korean > japanese && korean >= english,
                Language::English => english > chinese && english > japanese && english > korean,
                _ => false,
            }
        }),
{
    lemma_count_same(text, |c: char| is_ideograph(c), |c: char| '\u{4E00}' <= c <= '\u{9FFF}');
    lemma_count_same(text, |c: char| is_kana(c), |c: char| '\u{3040}' <= c <= '\u{30FF}');
    lemma_count_same(
        text,
        |c: char| is_hangul_syllable(c),
        |c: char| '\u{AC00}' <= c <= '\u{D7A3}',
    );
    lemma_count_same(
        text,
        |c: char| is_ascii_letter(c),
        |c: char| 'a' <= c <= 'z' || 'A' <= c <= 'Z',
    );
}

proof fn lemma_count_same(s: Seq<char>, p: spec_fn(char) -> bool, q: spec_fn(char) -> bool)
    requires
        forall|c: char| #[trigger] p(c) == q(c),
    ensures
        count(s, p) == count(s, q),
    decreases s.len(),
{
    if s.len() > 0 {
        lemma_count_same(s.drop_last(), p, q);
        assert(p(s.last()) == q(s.last()));
    }
}

/// English text is spoken word by word: the words of two texts with white space between them are
/// spoken as those of the one and of the other, and a word as itself.
pub proof fn english_is_spoken_word_by_word(
    known: Knowledge,
    a: Seq<char>,
    c: char,
    b: Seq<char>,
)
    requires
        is_space(c),
    ensures
        spoken_words(known.english, words(a.push(c) + b)) == spoken_words(known.english, words(a))
            + spoken_words(known.english, words(b)),
        a.len() > 0 && (forall|i: int| 0 <= i < a.len() ==> !is_space(#[trigger] a[i]))
            ==> converted(known, a, Language::English) == word_spoken(known.english, a),
        converted(known, a, Language::English) == join(
            spoken_words(known.english, words(a)),
            seq![' '],
        ),
{
    reveal_strlit(" ");
    assert(" "@ =~= seq![' ']);
    words_part_at_white_space(a, c, b);
    assert(spoken_words(known.english, words(a) + words(b)) =~= spoken_words(
        known.english,
        words(a),
    ) + spoken_words(known.english, words(b)));
    if a.len() > 0 && (forall|i: int| 0 <= i < a.len() ==> !is_space(#[trigger] a[i])) {
        text_without_white_space_is_a_word(a);
    }
}

/// Japanese and Korean text is handed on in brackets, and text of any other language but English
/// is read as Chinese.
pub proof fn languages_are_read_in_their_way(known: Knowledge, text: Seq<char>)
    ensures
        converted(known, text, Language::Japanese) == bracketed(text),
        converted(known, text, Language::Korean) == bracketed(text),
        converted(known, text, Language::Cantonese) == converted(known, text, Language::Chinese),
        converted(known, text, Language::Auto) == converted(known, text, dominant(text)) || dominant(
            text,
        ) == Language::Auto,
{
}

} // verus!
