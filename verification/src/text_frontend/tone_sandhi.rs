//! Tone sandhi: how the tones of Mandarin syllables change within and across words.

use crate::strings::{
    chars_of, digit, is_digit, matches_at, occurs_at, one_of, same, string_between, views,
};
use crate::text_frontend::lexicon::{
    cut_for_search, dictionary, pinyin_of, pinyin_with_tone, search_words,
};
use crate::text_frontend::neutral_words::{
    full_tone_word_set, full_tone_words, neutral_word_set, neutral_words,
};
use jieba_rs::Jieba;
use vstd::hash_set::StringHashSet;
use vstd::prelude::*;

verus! {

/// The tone that a pinyin spelling carries: its final digit, 5 (neutral) where it has none,
/// and 0 for a character without pinyin.
pub open spec fn tone_of(pinyin: Option<Seq<char>>) -> u32 {
    match pinyin {
        None => 0,
        Some(s) => if s.len() > 0 && is_digit(s.last()) {
            (s.last() as u32 - '0' as u32) as u32
        } else {
            5
        },
    }
}

/// The tones of the characters of a word.
pub open spec fn tones_of(word: Seq<char>) -> Seq<u32> {
    Seq::new(word.len(), |i: int| tone_of(pinyin_of(word[i])))
}

/// Whether there is a Chinese syllable and all Chinese syllables are in the third tone.
pub open spec fn only_third_tones(tones: Seq<u32>) -> bool {
    &&& exists|i: int| 0 <= i < tones.len() && tones[i] > 0
    &&& forall|i: int| 0 <= i < tones.len() && tones[i] > 0 ==> tones[i] == 3
}

/// The last `n` characters of a word, or all of a shorter word.
pub open spec fn tail(word: Seq<char>, n: nat) -> Seq<char> {
    if word.len() <= n {
        word
    } else {
        word.skip(word.len() - n)
    }
}

/// The position of the first of the shortest parts.
pub open spec fn first_shortest(parts: Seq<Seq<char>>) -> int
    decreases parts.len(),
{
    if parts.len() <= 1 {
        0
    } else {
        let k = first_shortest(parts.drop_last());
        if parts.last().len() < parts[k].len() {
            parts.len() - 1
        } else {
            k
        }
    }
}

/// A word cut in two at its shortest part: the part and what follows it where the word
/// starts with it, else what remains before a tail of its length, and the part.
pub open spec fn split_at_shortest(word: Seq<char>, parts: Seq<Seq<char>>) -> (
    Seq<char>,
    Seq<char>,
) {
    if parts.len() == 0 {
        (word, Seq::empty())
    } else {
        let part = parts[first_shortest(parts)];
        if occurs_at(word, part, 0) || !exists|at: int| occurs_at(word, part, at) {
            (part, word.skip(part.len() as int))
        } else {
            (word.take(word.len() - part.len()), part)
        }
    }
}

/// A word cut in two by the segmenter.
pub open spec fn split_of(
    word: Seq<char>,
    dictionary: Map<Seq<char>, (nat, Seq<char>)>,
) -> (Seq<char>, Seq<char>) {
    split_at_shortest(word, search_words(dictionary, word))
}

/// The tones after the rules for "不": neutral between two syllables, second tone before a
/// fourth tone.
pub open spec fn bu_tones(word: Seq<char>, tones: Seq<u32>) -> Seq<u32> {
    if word.len() == 3 && word[1] == '不' && tones.len() > 1 {
        tones.update(1, 5)
    } else {
        Seq::new(
            tones.len(),
            |i: int|
                if i < word.len() && word[i] == '不' && i + 1 < tones.len() && tones[i + 1] == 4 {
                    2
                } else {
                    tones[i]
                },
        )
    }
}

/// Whether a word is "一" and digits only.
pub open spec fn is_number(word: Seq<char>) -> bool {
    forall|i: int| 0 <= i < word.len() && word[i] != '一' ==> is_digit(#[trigger] word[i])
}

/// Punctuation before which "一" keeps its tone.
pub open spec fn pauses() -> Seq<char> {
    "：，；。？！\u{201C}\u{201D}\u{2018}\u{2019}':,;.?!"@
}

/// The tones after the rules for "一": unchanged in numbers, neutral in a repetition, first
/// tone in an ordinal, else second tone before a fourth tone and fourth tone before others.
pub open spec fn yi_tones(word: Seq<char>, tones: Seq<u32>) -> Seq<u32> {
    if is_number(word) {
        tones
    } else if word.len() == 3 && word[1] == '一' && word[0] == word[2] && tones.len() >= 2 {
        tones.update(1, 5)
    } else if occurs_at(word, "第一"@, 0) && tones.len() >= 2 {
        tones.update(1, 1)
    } else {
        Seq::new(
            tones.len(),
            |i: int|
                if i + 1 < word.len() && word[i] == '一' {
                    if i + 1 < tones.len() && tones[i + 1] == 4 {
                        2
                    } else if !pauses().contains(word[i + 1]) {
                        4
                    } else {
                        tones[i]
                    }
                } else {
                    tones[i]
                },
        )
    }
}

/// Modal particles, always neutral at the end of a word.
pub open spec fn particles() -> Seq<char> {
    "吧呢哈啊呐噻嘛吖嗨哦哒额滴哩哟喽啰耶喔诶"@
}

/// The first letter of a part of speech.
pub open spec fn pos_letter(pos: Seq<char>) -> char {
    if pos.len() > 0 {
        pos[0]
    } else {
        ' '
    }
}

/// Whether a word ends in one of the given characters.
pub open spec fn ends_in(word: Seq<char>, set: Seq<char>) -> bool {
    word.len() > 0 && set.contains(word.last())
}

/// Whether a word is one character, repeated in place, of a noun, verb or adjective.
pub open spec fn repeats_at(word: Seq<char>, pos: Seq<char>, i: int) -> bool {
    &&& 1 <= i < word.len()
    &&& word[i] == word[i - 1]
    &&& "nva"@.contains(pos_letter(pos))
    &&& !full_tone_words().contains(word)
}

/// Whether a word, or its last two characters, is spoken with a neutral last syllable.
pub open spec fn is_neutral_word(word: Seq<char>) -> bool {
    neutral_words().contains(word) || neutral_words().contains(tail(word, 2))
}

/// Whether the suffix of a longer word is neutral: plural and noun suffixes, places,
/// directions after a verb of motion.
pub open spec fn has_neutral_suffix(word: Seq<char>, pos: Seq<char>) -> bool {
    &&& word.len() > 1
    &&& {
        ||| ends_in(word, "们子"@) && (pos == "r"@ || pos == "n"@) && !full_tone_words().contains(word)
        ||| ends_in(word, "上下里"@) && "slf"@.contains(pos_letter(pos))
        ||| ends_in(word, "来去"@) && "上下进出回过起开"@.contains(word[word.len() - 2])
    }
}

/// The first "个" of a word.
pub open spec fn first_ge(word: Seq<char>) -> int {
    choose|g: int|
        0 <= g < word.len() && word[g] == '个' && forall|k: int| 0 <= k < g ==> word[k] != '个'
}

/// Whether "个" at position `g` counts something.
pub open spec fn is_measure_ge(word: Seq<char>, g: int) -> bool {
    word == "个"@ || (g >= 1 && (is_digit(word[g - 1]) || "几有两半多各整每做是"@.contains(
        word[g - 1],
    )))
}

/// The syllable that the word itself makes neutral, of `n` syllables.
pub open spec fn neutral_syllable(word: Seq<char>, pos: Seq<char>, n: nat) -> Option<int> {
    if ends_in(word, particles()) || ends_in(word, "的地得"@) {
        Some(n - 1)
    } else if word.len() == 1 && "了着过"@.contains(word[0]) && (pos == "ul"@ || pos == "uz"@ || pos
        == "ug"@) {
        Some(0)
    } else if has_neutral_suffix(word, pos) {
        Some(n - 1)
    } else if word.contains('个') {
        if is_measure_ge(word, first_ge(word)) && first_ge(word) < n {
            Some(first_ge(word))
        } else {
            None
        }
    } else if is_neutral_word(word) {
        Some(n - 1)
    } else {
        None
    }
}

/// Whether syllable `i` of `n` becomes neutral, in a word cut into `split`.
pub open spec fn is_neutral(
    word: Seq<char>,
    pos: Seq<char>,
    n: nat,
    split: (Seq<char>, Seq<char>),
    i: int,
) -> bool {
    ||| repeats_at(word, pos, i)
    ||| neutral_syllable(word, pos, n) == Some(i)
    ||| i == split.0.len() - 1 && is_neutral_word(split.0)
    ||| split.1.len() > 0 && i == split.0.len() + split.1.len() - 1 && is_neutral_word(split.1)
}

/// The tones after the neutral tone rules.
pub open spec fn neutral_tones(
    word: Seq<char>,
    pos: Seq<char>,
    tones: Seq<u32>,
    split: (Seq<char>, Seq<char>),
) -> Seq<u32> {
    Seq::new(
        tones.len(),
        |i: int|
            if is_neutral(word, pos, tones.len(), split, i) {
                5
            } else {
                tones[i]
            },
    )
}

/// The tones after the third tone rules, in a word of `len` characters whose first part has
/// `first` characters.
pub open spec fn third_tones(len: nat, tones: Seq<u32>, first: nat) -> Seq<u32> {
    let n = tones.len();
    if n == 0 {
        tones
    } else if len == 2 && only_third_tones(tones) {
        tones.update(0, 2)
    } else if len == 3 && only_third_tones(tones) {
        if first == 2 && n >= 2 {
            tones.update(0, 2).update(1, 2)
        } else if first == 1 && n >= 2 {
            tones.update(1, 2)
        } else {
            tones
        }
    } else if len == 3 && 0 < first < n {
        let head = if first == 2 && only_third_tones(tones.take(2)) {
            tones.update(0, 2)
        } else {
            tones
        };
        if tones[first - 1] == 3 && tones[first as int] == 3 && !only_third_tones(
            tones.skip(first as int),
        ) {
            head.update(first - 1, 2)
        } else {
            head
        }
    } else if len == 4 && n >= 4 {
        let head = if only_third_tones(tones.take(2)) {
            tones.update(0, 2)
        } else {
            tones
        };
        if only_third_tones(tones.skip(2)) {
            head.update(2, 2)
        } else {
            head
        }
    } else {
        tones
    }
}

/// The tones of a word after all sandhi rules, the word cut into `split`.
pub open spec fn sandhi_tones(
    word: Seq<char>,
    pos: Seq<char>,
    tones: Seq<u32>,
    split: (Seq<char>, Seq<char>),
) -> Seq<u32> {
    third_tones(
        word.len(),
        neutral_tones(word, pos, yi_tones(word, bu_tones(word, tones)), split),
        split.0.len(),
    )
}

/// Tone sandhi rules with their word lists.
pub struct ToneSandhi {
    must_neural: StringHashSet,
    must_not_neural: StringHashSet,
}

impl ToneSandhi {
    #[verifier::type_invariant]
    spec fn holds_its_word_lists(self) -> bool {
        &&& self.must_neural@ == neutral_words()
        &&& self.must_not_neural@ == full_tone_words()
    }

    /// The words whose last syllable is neutral.
    pub closed spec fn neutral(&self) -> Set<Seq<char>> {
        self.must_neural@
    }

    /// The words that keep their tones.
    pub closed spec fn full(&self) -> Set<Seq<char>> {
        self.must_not_neural@
    }

    /// The rules with their word lists.
    pub fn new() -> (r: Self)
        ensures
            r.neutral() == neutral_words(),
            r.full() == full_tone_words(),
    {
        Self { must_neural: neutral_word_set(), must_not_neural: full_tone_word_set() }
    }

    /// The tones of all characters of a word, 0 for those that are not Chinese.
    pub fn word_tones(word: &str) -> (tones: Vec<u32>)
        ensures
            tones@ == tones_of(word@),
    {
        let chars = chars_of(word);
        let mut tones: Vec<u32> = Vec::new();
        for i in 0..chars.len()
            invariant
                chars@ == word@,
                tones@ == tones_of(word@).take(i as int),
        {
            let tone: u32 = match pinyin_with_tone(chars[i]) {
                None => 0,
                Some(s) => {
                    let spelled = chars_of(s.as_str());
                    if spelled.len() > 0 && digit(spelled[spelled.len() - 1]) {
                        spelled[spelled.len() - 1] as u32 - '0' as u32
                    } else {
                        5
                    }
                },
            };
            tones.push(tone);
        }
        tones
    }

    /// True iff there is at least one Chinese character and all of them are in the third tone.
    pub fn all_tone_three(tones: &[u32]) -> (r: bool)
        ensures
            r == only_third_tones(tones@),
    {
        let mut has_chinese = false;
        for i in 0..tones.len()
            invariant
                has_chinese == exists|j: int| 0 <= j < i && tones@[j] > 0,
                forall|j: int| 0 <= j < i && tones@[j] > 0 ==> tones@[j] == 3,
        {
            if tones[i] > 0 {
                has_chinese = true;
                if tones[i] != 3 {
                    return false;
                }
            }
        }
        has_chinese
    }

    /// Whether a word is one character twice.
    pub fn is_reduplication(word: &str) -> (r: bool)
        ensures
            r == (word@.len() == 2 && word@[0] == word@[1]),
    {
        let chars = chars_of(word);
        chars.len() == 2 && chars[0] == chars[1]
    }

    /// The last `n` characters of a word.
    pub fn last_n_chars(word: &str, n: usize) -> (r: String)
        ensures
            r@ == tail(word@, n as nat),
    {
        let chars = chars_of(word);
        if chars.len() <= n {
            word.to_owned()
        } else {
            string_between(chars.as_slice(), chars.len() - n, chars.len())
        }
    }

    /// Cuts a word in two at the shortest of the given parts.
    pub fn split_word_at(word: &str, parts: &Vec<String>) -> (r: (String, String))
        requires
            forall|i: int|
                0 <= i < parts@.len() ==> 0 < (#[trigger] parts@[i])@.len() <= word@.len(),
        ensures
            (r.0@, r.1@) == split_at_shortest(word@, views(parts@)),
    {
        if parts.len() == 0 {
            return (word.to_owned(), String::new());
        }
        let ghost all = views(parts@);
        let mut shortest: usize = 0;
        let mut shortest_len: usize = chars_of(parts[0].as_str()).len();
        for i in 1..parts.len()
            invariant
                all == views(parts@),
                shortest < i <= parts@.len(),
                shortest == first_shortest(all.take(i as int)),
                shortest_len == all[shortest as int].len(),
        {
            assert(all.take(i + 1).drop_last() =~= all.take(i as int));
            let len: usize = chars_of(parts[i].as_str()).len();
            if len < shortest_len {
                shortest = i;
                shortest_len = len;
            }
        }
        assert(all.take(parts@.len() as int) =~= all);
        let chars = chars_of(word);
        let part = chars_of(parts[shortest].as_str());
        assert(part@ == all[shortest as int]);
        let mut begin: usize = 0;
        let mut found = false;
        let mut at: usize = 0;
        while at < chars.len() && !found
            invariant
                0 <= at <= chars@.len(),
                chars@ == word@,
                part@.len() > 0,
                found ==> occurs_at(word@, part@, begin as int),
                found ==> forall|k: int| 0 <= k < begin ==> !occurs_at(word@, part@, k),
                !found ==> begin == 0,
                !found ==> forall|k: int| 0 <= k < at ==> !occurs_at(word@, part@, k),
            decreases chars@.len() - at, (if found { 0int } else { 1int }),
        {
            if matches_at(chars.as_slice(), part.as_slice(), at) {
                begin = at;
                found = true;
            } else {
                at = at + 1;
            }
        }
        proof {
            assert forall|k: int| !found implies !occurs_at(word@, part@, k) by {
                if k >= word@.len() {
                    assert(!occurs_at(word@, part@, k));
                }
            }
        }
        if begin == 0 {
            (parts[shortest].clone(), string_between(chars.as_slice(), part.len(), chars.len()))
        } else {
            (string_between(chars.as_slice(), 0, chars.len() - part.len()), parts[shortest].clone())
        }
    }

    /// Cuts a word in two with the segmenter.
    pub fn split_word(word: &str, jieba: &Jieba) -> (r: (String, String))
        ensures
            (r.0@, r.1@) == split_of(word@, dictionary(*jieba)),
    {
        let parts = cut_for_search(jieba, word);
        Self::split_word_at(word, &parts)
    }

    /// Applies the rules for "不".
    pub fn bu_sandhi(word: &str, tones: &mut Vec<u32>)
        ensures
            final(tones)@ == bu_tones(word@, old(tones)@),
    {
        let chars = chars_of(word);
        let ghost before = tones@;
        if chars.len() == 3 && chars[1] == '不' && tones.len() > 1 {
            tones.set(1, 5);
            return;
        }
        let ghost after = bu_tones(word@, before);
        for i in 0..chars.len()
            invariant
                chars@ == word@,
                before == old(tones)@,
                !(word@.len() == 3 && word@[1] == '不' && before.len() > 1),
                tones@.len() == before.len(),
                after == bu_tones(word@, before),
                forall|j: int| 0 <= j < before.len() ==> #[trigger] tones@[j] == if j < i { after[j] } else { before[j] },
        {
            if chars[i] == '不' && i < tones.len() && i + 1 < tones.len() && tones[i + 1] == 4 {
                tones.set(i, 2);
            }
        }
        assert(tones@ =~= after);
    }

    /// Applies the rules for "一".
    pub fn yi_sandhi(word: &str, tones: &mut Vec<u32>)
        ensures
            final(tones)@ == yi_tones(word@, old(tones)@),
    {
        let chars = chars_of(word);
        let ghost before = tones@;
        let mut number = true;
        for i in 0..chars.len()
            invariant
                chars@ == word@,
                number == forall|j: int|
                    0 <= j < i && word@[j] != '一' ==> is_digit(#[trigger] word@[j]),
        {
            if chars[i] != '一' && !digit(chars[i]) {
                number = false;
            }
        }
        if number {
            return;
        }
        if chars.len() == 3 && chars[1] == '一' && chars[0] == chars[2] && tones.len() >= 2 {
            tones.set(1, 5);
            return;
        }
        let ordinal = chars_of("第一");
        if matches_at(chars.as_slice(), ordinal.as_slice(), 0) && tones.len() >= 2 {
            tones.set(1, 1);
            return;
        }
        let ghost after = yi_tones(word@, before);
        for i in 0..chars.len()
            invariant
                chars@ == word@,
                !is_number(word@),
                !(word@.len() == 3 && word@[1] == '一' && word@[0] == word@[2] && before.len() >= 2),
                !(occurs_at(word@, "第一"@, 0) && before.len() >= 2),
                tones@.len() == before.len(),
                after == yi_tones(word@, before),
                forall|j: int|
                    0 <= j < before.len() ==> #[trigger] tones@[j] == if j < i {
                        after[j]
                    } else {
                        before[j]
                    },
        {
            if chars[i] == '一' && i + 1 < chars.len() && i < tones.len() {
                let next = chars[i + 1];
                if i + 1 < tones.len() && tones[i + 1] == 4 {
                    tones.set(i, 2);
                } else if !one_of(
                    next,
                    "：，；。？！\u{201C}\u{201D}\u{2018}\u{2019}':,;.?!",
                ) {
                    tones.set(i, 4);
                }
            }
        }
        assert(tones@ =~= after);
    }

    /// Whether a word, or its last two characters, is spoken with a neutral last syllable.
    fn neutral_word(&self, word: &str) -> (r: bool)
        ensures
            r == is_neutral_word(word@),
    {
        proof {
            use_type_invariant(self);
        }
        self.must_neural.contains(word) || self.must_neural.contains(
            Self::last_n_chars(word, 2).as_str(),
        )
    }

    /// Whether the suffix of a longer word is neutral.
    fn neutral_suffix(&self, word: &str, chars: &Vec<char>, pos: &str, letter: char) -> (r: bool)
        requires
            chars@ == word@,
            letter == pos_letter(pos@),
        ensures
            r == has_neutral_suffix(word@, pos@),
    {
        proof {
            use_type_invariant(self);
        }
        if chars.len() <= 1 {
            return false;
        }
        let last = chars[chars.len() - 1];
        let before_last = chars[chars.len() - 2];
        (one_of(last, "们子") && (same(pos, "r") || same(pos, "n"))
            && !self.must_not_neural.contains(word)) || (one_of(last, "上下里") && one_of(letter, "slf"))
            || (one_of(last, "来去") && one_of(before_last, "上下进出回过起开"))
    }

    /// The syllable that the word itself makes neutral, of `n` syllables.
    fn neutral_syllable_of(
        &self,
        word: &str,
        chars: &Vec<char>,
        pos: &str,
        letter: char,
        n: usize,
    ) -> (r: Option<usize>)
        requires
            chars@ == word@,
            letter == pos_letter(pos@),
            n > 0,
        ensures
            match r {
                Some(i) => neutral_syllable(word@, pos@, n as nat) == Some(i as int),
                None => neutral_syllable(word@, pos@, n as nat) is None,
            },
    {
        let len: usize = chars.len();
        if len > 0 && (one_of(
            chars[len - 1],
            "吧呢哈啊呐噻嘛吖嗨哦哒额滴哩哟喽啰耶喔诶",
        ) || one_of(chars[len - 1], "的地得")) {
            return Some(n - 1);
        }
        if len == 1 && one_of(chars[0], "了着过") && (same(pos, "ul") || same(pos, "uz") || same(
            pos,
            "ug",
        )) {
            return Some(0);
        }
        if self.neutral_suffix(word, chars, pos, letter) {
            return Some(n - 1);
        }
        for g in 0..len
            invariant
                len == chars@.len(),
                chars@ == word@,
                forall|k: int| 0 <= k < g ==> word@[k] != '个',
                !(ends_in(word@, particles()) || ends_in(word@, "的地得"@)),
                !(word@.len() == 1 && "了着过"@.contains(word@[0]) && (pos@ == "ul"@ || pos@
                    == "uz"@ || pos@ == "ug"@)),
                !has_neutral_suffix(word@, pos@),
        {
            if chars[g] == '个' {
                assert(word@[g as int] == '个');
                assert(word@.contains('个'));
                assert(first_ge(word@) == g);
                let counts = same(word, "个") || (g >= 1 && (digit(chars[g - 1]) || one_of(
                    chars[g - 1],
                    "几有两半多各整每做是",
                )));
                return if counts && g < n {
                    Some(g)
                } else {
                    None
                };
            }
        }
        if self.neutral_word(word) {
            Some(n - 1)
        } else {
            None
        }
    }

    /// Applies the neutral tone rules to a word cut into `split`.
    pub fn neural_sandhi_split(
        &self,
        word: &str,
        pos: &str,
        tones: &mut Vec<u32>,
        split: &(String, String),
    )
        ensures
            final(tones)@ == neutral_tones(word@, pos@, old(tones)@, (split.0@, split.1@)),
    {
        let n: usize = tones.len();
        let ghost before = tones@;
        let ghost parts = (split.0@, split.1@);
        let ghost after = neutral_tones(word@, pos@, before, parts);
        if n == 0 {
            assert(tones@ =~= after);
            return;
        }
        let chars = chars_of(word);
        let pos_chars = chars_of(pos);
        let letter = if pos_chars.len() > 0 {
            pos_chars[0]
        } else {
            ' '
        };
        let own = self.neutral_syllable_of(word, &chars, pos, letter, n);
        let first_len: usize = chars_of(split.0.as_str()).len();
        let second_len: usize = chars_of(split.1.as_str()).len();
        let first = first_len > 0 && self.neutral_word(split.0.as_str());
        let second = second_len > 0 && self.neutral_word(split.1.as_str());
        proof {
            use_type_invariant(self);
        }
        let may_repeat = one_of(letter, "nva") && !self.must_not_neural.contains(word);
        for i in 0..n
            invariant
                n == before.len(),
                tones@.len() == n,
                chars@ == word@,
                parts == (split.0@, split.1@),
                first_len == parts.0.len(),
                second_len == parts.1.len(),
                may_repeat == ("nva"@.contains(pos_letter(pos@)) && !full_tone_words().contains(
                    word@,
                )),
                first == (first_len > 0 && is_neutral_word(parts.0)),
                second == (second_len > 0 && is_neutral_word(parts.1)),
                match own {
                    Some(k) => neutral_syllable(word@, pos@, n as nat) == Some(k as int),
                    None => neutral_syllable(word@, pos@, n as nat) is None,
                },
                after == neutral_tones(word@, pos@, before, parts),
                forall|j: int|
                    0 <= j < n ==> #[trigger] tones@[j] == if j < i {
                        after[j]
                    } else {
                        before[j]
                    },
        {
            let repeated = may_repeat && i >= 1 && i < chars.len() && chars[i] == chars[i - 1];
            let is_own = match own {
                Some(k) => k == i,
                None => false,
            };
            if repeated || is_own || (first && i == first_len - 1) || (second && i + 1
                >= first_len && i + 1 - first_len == second_len) {
                tones.set(i, 5);
            }
        }
        assert(tones@ =~= after);
    }

    /// Applies the neutral tone rules.
    pub fn neural_sandhi(&self, word: &str, pos: &str, tones: &mut Vec<u32>, jieba: &Jieba)
        ensures
            final(tones)@ == neutral_tones(
                word@,
                pos@,
                old(tones)@,
                split_of(word@, dictionary(*jieba)),
            ),
    {
        let split = Self::split_word(word, jieba);
        self.neural_sandhi_split(word, pos, tones, &split);
    }

    /// Applies the third tone rules to a word whose first part has `first` characters.
    pub fn three_sandhi_split(word: &str, tones: &mut Vec<u32>, first: usize)
        ensures
            final(tones)@ == third_tones(word@.len(), old(tones)@, first as nat),
    {
        let len: usize = chars_of(word).len();
        let n: usize = tones.len();
        let ghost before = tones@;
        if n == 0 {
            return;
        }
        let all = Self::all_tone_three(tones.as_slice());
        if len == 2 && all {
            tones.set(0, 2);
        } else if len == 3 {
            if all {
                if first == 2 && n >= 2 {
                    tones.set(0, 2);
                    tones.set(1, 2);
                } else if first == 1 && n >= 2 {
                    tones.set(1, 2);
                }
            } else if first > 0 && first < n {
                let head = first == 2 && Self::all_tone_three(
                    vstd::slice::slice_subrange(tones.as_slice(), 0, first),
                );
                let rest = Self::all_tone_three(
                    vstd::slice::slice_subrange(tones.as_slice(), first, n),
                );
                proof {
                    assert(before.subrange(0, first as int) =~= before.take(first as int));
                    assert(before.subrange(first as int, n as int) =~= before.skip(first as int));
                }
                let meets = tones[first - 1] == 3 && tones[first] == 3;
                if head {
                    tones.set(0, 2);
                }
                if meets && !rest {
                    tones.set(first - 1, 2);
                }
            }
        } else if len == 4 && n >= 4 {
            let head = Self::all_tone_three(vstd::slice::slice_subrange(tones.as_slice(), 0, 2));
            let rest = Self::all_tone_three(vstd::slice::slice_subrange(tones.as_slice(), 2, n));
            proof {
                assert(before.subrange(0, 2) =~= before.take(2));
                assert(before.subrange(2, n as int) =~= before.skip(2));
            }
            if head {
                tones.set(0, 2);
            }
            if rest {
                tones.set(2, 2);
            }
        }
    }

    /// Applies the third tone rules.
    pub fn three_sandhi(word: &str, tones: &mut Vec<u32>, jieba: &Jieba)
        ensures
            final(tones)@ == third_tones(
                word@.len(),
                old(tones)@,
                split_of(word@, dictionary(*jieba)).0.len(),
            ),
    {
        let split = Self::split_word(word, jieba);
        let first: usize = chars_of(split.0.as_str()).len();
        Self::three_sandhi_split(word, tones, first);
    }

    /// Applies all sandhi rules to the tones of a word.
    pub fn modified_tone(&self, word: &str, pos: &str, tones: &mut Vec<u32>, jieba: &Jieba)
        ensures
            final(tones)@ == sandhi_tones(
                word@,
                pos@,
                old(tones)@,
                split_of(word@, dictionary(*jieba)),
            ),
    {
        Self::bu_sandhi(word, tones);
        Self::yi_sandhi(word, tones);
        self.neural_sandhi(word, pos, tones, jieba);
        Self::three_sandhi(word, tones, jieba);
    }
}

impl Default for ToneSandhi {
    fn default() -> (r: Self)
        ensures
            r.neutral() == neutral_words(),
            r.full() == full_tone_words(),
    {
        Self::new()
    }
}

/// The third tone rules change a third tone into a second one and nothing else, but for the places
/// of characters that are not Chinese; the last syllable stays.
pub proof fn only_third_tones_rise(len: nat, tones: Seq<u32>, first: nat, i: int)
    requires
        tones.len() == len,
        0 <= i < len,
    ensures
        third_tones(len, tones, first).len() == len,
        third_tones(len, tones, first)[i] == tones[i] || (third_tones(len, tones, first)[i] == 2
            && (tones[i] == 3 || tones[i] == 0)),
        i == len - 1 && i > 0 ==> third_tones(len, tones, first)[i] == tones[i],
        len == 1 ==> third_tones(len, tones, first) == tones,
{
    let all = tones;
    if len == 2 && only_third_tones(tones) {
        assert(tones[0] > 0 ==> tones[0] == 3);
    } else if len == 3 && only_third_tones(tones) {
        assert(tones[0] > 0 ==> tones[0] == 3);
        assert(tones[1] > 0 ==> tones[1] == 3);
    } else if len == 3 && 0 < first < len {
        if only_third_tones(tones.take(2)) {
            assert(tones.take(2)[0] == tones[0]);
            assert(tones[0] > 0 ==> tones[0] == 3);
        }
    } else if len == 4 {
        if only_third_tones(tones.take(2)) {
            assert(tones.take(2)[0] == tones[0]);
            assert(tones[0] > 0 ==> tones[0] == 3);
        }
        if only_third_tones(tones.skip(2)) {
            assert(tones.skip(2)[0] == tones[2]);
            assert(tones[2] > 0 ==> tones[2] == 3);
        }
    }
}

/// In a word of two third tones the first rises; in one of three, no two third tones are left side
/// by side, and the part of two syllables rises at its first; in one of four, each half of two
/// third tones rises at its first. Where no two third tones stand side by side nothing changes.
pub proof fn third_tones_side_by_side_rise(tones: Seq<u32>, first: nat)
    requires
        forall|i: int| 0 <= i < tones.len() ==> (#[trigger] tones[i]) > 0,
    ensures
        tones == seq![3u32, 3] ==> third_tones(2, tones, first) == seq![2u32, 3],
        tones == seq![3u32, 3, 3] && first == 2 ==> third_tones(3, tones, first) == seq![2u32, 2, 3],
        tones == seq![3u32, 3, 3] && first == 1 ==> third_tones(3, tones, first) == seq![3u32, 2, 3],
        tones.len() == 3 && tones[0] == 3 && tones[1] == 3 && tones[2] != 3 ==> third_tones(
            3,
            tones,
            2,
        ) == seq![2u32, 3, tones[2]] && third_tones(3, tones, 1) == seq![2u32, 3, tones[2]],
        tones.len() == 3 && tones[0] != 3 ==> third_tones(3, tones, 1) == tones,
        tones.len() == 3 && tones[1] != 3 ==> third_tones(3, tones, first) == tones,
        tones.len() == 4 ==> third_tones(4, tones, first) == seq![
            if tones[0] == 3 && tones[1] == 3 {
                2u32
            } else {
                tones[0]
            },
            tones[1],
            if tones[2] == 3 && tones[3] == 3 {
                2u32
            } else {
                tones[2]
            },
            tones[3],
        ],
        tones.len() == 2 && (tones[0] != 3 || tones[1] != 3) ==> third_tones(2, tones, first)
            == tones,
        tones.len() == 1 || tones.len() > 4 ==> third_tones(tones.len(), tones, first) == tones,
{
    if tones.len() > 0 {
        assert(tones[0] > 0);
        assert(tones[tones.len() - 1] > 0);
    }
    if tones.len() >= 3 {
        assert(tones[1] > 0 && tones[2] > 0);
    }
    if tones.len() == 3 {
        let head = tones.take(2);
        assert(head[0] == tones[0] && head[1] == tones[1]);
        assert(only_third_tones(head) <==> tones[0] == 3 && tones[1] == 3);
        let tail = tones.skip(1);
        assert(tail[0] == tones[1] && tail[1] == tones[2]);
        assert(only_third_tones(tail) <==> tones[1] == 3 && tones[2] == 3);
        assert(only_third_tones(tones) <==> tones[0] == 3 && tones[1] == 3 && tones[2] == 3);
        let last = tones.skip(2);
        assert(last[0] == tones[2]);
        assert(only_third_tones(last) <==> tones[2] == 3);
        if tones[0] == 3 && tones[1] == 3 && tones[2] != 3 {
            assert(third_tones(3, tones, 2) =~= seq![2u32, 3, tones[2]]);
            assert(third_tones(3, tones, 1) =~= seq![2u32, 3, tones[2]]);
        }
        if tones == seq![3u32, 3, 3] {
            assert(third_tones(3, tones, 2) =~= seq![2u32, 2, 3]);
            assert(third_tones(3, tones, 1) =~= seq![3u32, 2, 3]);
        }
    } else if tones.len() == 4 {
        let head = tones.take(2);
        assert(head[0] == tones[0] && head[1] == tones[1]);
        assert(only_third_tones(head) <==> tones[0] == 3 && tones[1] == 3);
        let rest = tones.skip(2);
        assert(rest[0] == tones[2] && rest[1] == tones[3]);
        assert(only_third_tones(rest) <==> tones[2] == 3 && tones[3] == 3);
        assert(third_tones(4, tones, first) =~= seq![
            if tones[0] == 3 && tones[1] == 3 {
                2u32
            } else {
                tones[0]
            },
            tones[1],
            if tones[2] == 3 && tones[3] == 3 {
                2u32
            } else {
                tones[2]
            },
            tones[3],
        ]);
    } else if tones.len() == 2 {
        assert(only_third_tones(tones) <==> tones[0] == 3 && tones[1] == 3);
        if tones[0] == 3 && tones[1] == 3 {
            assert(third_tones(2, tones, first) =~= seq![2u32, 3]);
        }
    }
}

/// "不" is second before a fourth tone and neutral between two syllables of a word of three; in all
/// other places it keeps its tone, and no other character is touched.
pub proof fn bu_follows_its_neighbour(word: Seq<char>, tones: Seq<u32>, i: int)
    requires
        tones.len() == word.len(),
        0 <= i < word.len(),
    ensures
        bu_tones(word, tones).len() == tones.len(),
        word[i] != '不' ==> bu_tones(word, tones)[i] == tones[i],
        word.len() == 3 && word[1] == '不' ==> bu_tones(word, tones)[1] == 5,
        word[i] == '不' && !(word.len() == 3 && word[1] == '不') ==> bu_tones(word, tones)[i] == if i
            + 1 < word.len() && tones[i + 1] == 4 {
            2
        } else {
            tones[i]
        },
{
}

/// "一" keeps its tone in a number and at the end of a word, is neutral between a repeated character,
/// first in an ordinal, second before a fourth tone, and fourth before other syllables; no other
/// character is touched.
pub proof fn yi_follows_its_neighbour(word: Seq<char>, tones: Seq<u32>, i: int)
    requires
        tones.len() == word.len(),
        0 <= i < word.len(),
    ensures
        yi_tones(word, tones).len() == tones.len(),
        word[i] != '一' ==> yi_tones(word, tones)[i] == tones[i],
        (forall|k: int| 0 <= k < word.len() ==> #[trigger] word[k] == '一' || '0' <= word[k] <= '9')
            ==> yi_tones(word, tones) == tones,
        word.len() == 3 && word[1] == '一' && word[0] == word[2] && word[0] != '一' && !('0'
            <= word[0] <= '9') ==> yi_tones(word, tones)[1] == 5,
        word.len() > 1 && word[0] == '第' && word[1] == '一' && !(word.len() == 3 && word[2] == '第')
            ==> yi_tones(word, tones)[1] == 1,
        i + 1 == word.len() && word[i] == '一' && !(word.len() > 1 && word[0] == '第') ==> yi_tones(
            word,
            tones,
        )[i] == tones[i],
        ({
            let ordinary = word[i] == '一' && i + 1 < word.len() && word[i + 1] != '一' && !('0'
                <= word[i + 1] <= '9') && !(word.len() == 3 && word[1] == '一' && word[0]
                == word[2]) && word[0] != '第';
            &&& ordinary && tones[i + 1] == 4 ==> yi_tones(word, tones)[i] == 2
            &&& ordinary && tones[i + 1] != 4
                && !"：，；。？！\u{201C}\u{201D}\u{2018}\u{2019}':,;.?!"@.contains(word[i + 1])
                ==> yi_tones(word, tones)[i] == 4
            &&& ordinary && tones[i + 1] != 4
                && "：，；。？！\u{201C}\u{201D}\u{2018}\u{2019}':,;.?!"@.contains(word[i + 1])
                ==> yi_tones(word, tones)[i] == tones[i]
        }),
{
    reveal_strlit("第一");
    let first = "第一"@;
    assert(first =~= seq!['第', '一']);
    if occurs_at(word, first, 0) {
        assert(word.subrange(0, 2)[0] == '第');
        assert(word.subrange(0, 2)[1] == '一');
        assert(word[0] == '第' && word[1] == '一');
        assert(!is_digit(word[0]) && word[0] != '一');
        assert(!is_number(word));
    }
    if word.len() > 1 && word[0] == '第' && word[1] == '一' {
        assert(word.subrange(0, 2) =~= first);
        assert(!is_digit(word[0]) && word[0] != '一');
        assert(!is_number(word));
    }
    if word.len() == 3 && word[0] != '一' && !('0' <= word[0] <= '9') {
        assert(!is_number(word));
    }
    if i + 1 < word.len() && word[i + 1] != '一' && !('0' <= word[i + 1] <= '9') {
        assert(!is_number(word));
    }
    if forall|k: int| 0 <= k < word.len() ==> #[trigger] word[k] == '一' || '0' <= word[k] <= '9' {
        assert(is_number(word));
    }
}

/// A tone that is neither third nor that of "不" or "一" stays or becomes neutral.
pub proof fn other_tones_only_weaken(
    word: Seq<char>,
    pos: Seq<char>,
    tones: Seq<u32>,
    split: (Seq<char>, Seq<char>),
    i: int,
)
    requires
        tones.len() == word.len(),
        0 <= i < word.len(),
        word[i] != '不',
        word[i] != '一',
    ensures
        sandhi_tones(word, pos, tones, split).len() == word.len(),
        tones[i] == 1 || tones[i] == 2 || tones[i] == 4 || tones[i] == 5 ==> sandhi_tones(
            word,
            pos,
            tones,
            split,
        )[i] == tones[i] || sandhi_tones(word, pos, tones, split)[i] == 5,
        tones[i] == 3 ==> sandhi_tones(word, pos, tones, split)[i] == 3 || sandhi_tones(
            word,
            pos,
            tones,
            split,
        )[i] == 2 || sandhi_tones(word, pos, tones, split)[i] == 5,
{
    bu_follows_its_neighbour(word, tones, i);
    let bu = bu_tones(word, tones);
    yi_follows_its_neighbour(word, bu, i);
    let yi = yi_tones(word, bu);
    let weak = neutral_tones(word, pos, yi, split);
    only_third_tones_rise(word.len(), weak, split.0.len(), i);
}

/// Whether a word is in none of the lists of words with a neutral last syllable, nor its last two
/// characters.
pub open spec fn is_strong(word: Seq<char>) -> bool {
    &&& !neutral_words().contains(word)
    &&& word.len() > 2 ==> !neutral_words().contains(word.skip(word.len() - 2))
}

/// Where no rule speaks of a syllable its tone stays: its character is neither "不" nor "一" and not
/// that before it, the word has no "个" and no ending that is neutral, neither the word nor a part of
/// it is in the list of words with a neutral last syllable, and the tone is not the third.
pub proof fn plain_syllables_keep_their_tones(
    word: Seq<char>,
    pos: Seq<char>,
    tones: Seq<u32>,
    split: (Seq<char>, Seq<char>),
    i: int,
)
    requires
        tones.len() == word.len(),
        0 <= i < word.len(),
        word[i] != '不',
        word[i] != '一',
        0 < tones[i],
        tones[i] != 3,
        i == 0 || word[i] != word[i - 1],
        !word.contains('个'),
        !"吧呢哈啊呐噻嘛吖嗨哦哒额滴哩哟喽啰耶喔诶的地得了着过们子上下里来去"@.contains(word.last()),
        is_strong(word),
        is_strong(split.0),
        is_strong(split.1),
    ensures
        sandhi_tones(word, pos, tones, split)[i] == tones[i],
{
    reveal_strlit("吧呢哈啊呐噻嘛吖嗨哦哒额滴哩哟喽啰耶喔诶的地得了着过们子上下里来去");
    reveal_strlit("吧呢哈啊呐噻嘛吖嗨哦哒额滴哩哟喽啰耶喔诶");
    reveal_strlit("的地得");
    reveal_strlit("了着过");
    reveal_strlit("们子");
    reveal_strlit("上下里");
    reveal_strlit("来去");
    let endings = "吧呢哈啊呐噻嘛吖嗨哦哒额滴哩哟喽啰耶喔诶的地得了着过们子上下里来去"@;
    let c = word.last();
    assert(endings =~= particles() + "的地得"@ + "了着过"@ + "们子"@ + "上下里"@ + "来去"@);
    lemma_not_in_sum(particles() + "的地得"@ + "了着过"@ + "们子"@ + "上下里"@, "来去"@, c);
    lemma_not_in_sum(particles() + "的地得"@ + "了着过"@ + "们子"@, "上下里"@, c);
    lemma_not_in_sum(particles() + "的地得"@ + "了着过"@, "们子"@, c);
    lemma_not_in_sum(particles() + "的地得"@, "了着过"@, c);
    lemma_not_in_sum(particles(), "的地得"@, c);
    bu_follows_its_neighbour(word, tones, i);
    let bu = bu_tones(word, tones);
    yi_follows_its_neighbour(word, bu, i);
    let yi = yi_tones(word, bu);
    let weak = neutral_tones(word, pos, yi, split);
    lemma_strong(word);
    lemma_strong(split.0);
    lemma_strong(split.1);
    assert(neutral_syllable(word, pos, yi.len()) is None);
    assert(!is_neutral(word, pos, yi.len(), split, i));
    only_third_tones_rise(word.len(), weak, split.0.len(), i);
}

proof fn lemma_not_in_sum(a: Seq<char>, b: Seq<char>, c: char)
    requires
        !(a + b).contains(c),
    ensures
        !a.contains(c),
        !b.contains(c),
{
    if a.contains(c) {
        let i = choose|i: int| 0 <= i < a.len() && a[i] == c;
        assert((a + b)[i] == c);
    }
    if b.contains(c) {
        let i = choose|i: int| 0 <= i < b.len() && b[i] == c;
        assert((a + b)[a.len() + i] == c);
    }
}

proof fn lemma_strong(word: Seq<char>)
    requires
        is_strong(word),
    ensures
        !is_neutral_word(word),
{
}

/// A word that ends in a modal particle or in "的", "地" or "得" has a neutral last syllable.
pub proof fn particles_are_neutral(
    word: Seq<char>,
    pos: Seq<char>,
    tones: Seq<u32>,
    split: (Seq<char>, Seq<char>),
)
    requires
        tones.len() == word.len(),
        word.len() > 0,
        "吧呢哈啊呐噻嘛吖嗨哦哒额滴哩哟喽啰耶喔诶"@.contains(word.last()) || word.last() == '的' || word.last()
            == '地' || word.last() == '得',
    ensures
        sandhi_tones(word, pos, tones, split).len() == word.len(),
        sandhi_tones(word, pos, tones, split).last() == 5,
{
    reveal_strlit("的地得");
    assert("的地得"@[0] == '的' && "的地得"@[1] == '地' && "的地得"@[2] == '得');
    lemma_neutral_stays(word, pos, tones, split, word.len() - 1);
}

/// A syllable that becomes neutral is neutral behind all rules.
proof fn lemma_neutral_stays(
    word: Seq<char>,
    pos: Seq<char>,
    tones: Seq<u32>,
    split: (Seq<char>, Seq<char>),
    i: int,
)
    requires
        tones.len() == word.len(),
        0 <= i < word.len(),
        is_neutral(word, pos, word.len(), split, i),
    ensures
        sandhi_tones(word, pos, tones, split).len() == word.len(),
        sandhi_tones(word, pos, tones, split)[i] == 5,
{
    bu_follows_its_neighbour(word, tones, i);
    let bu = bu_tones(word, tones);
    yi_follows_its_neighbour(word, bu, i);
    let weak = neutral_tones(word, pos, yi_tones(word, bu), split);
    only_third_tones_rise(word.len(), weak, split.0.len(), i);
}

/// A word of the list of words with a neutral last syllable has one, and so has a word whose last two
/// characters are in the list.
pub proof fn listed_words_weaken(
    word: Seq<char>,
    pos: Seq<char>,
    tones: Seq<u32>,
    split: (Seq<char>, Seq<char>),
)
    requires
        tones.len() == word.len(),
        word.len() > 1,
        !word.contains('个'),
        neutral_words().contains(word) || neutral_words().contains(word.skip(word.len() - 2)),
    ensures
        sandhi_tones(word, pos, tones, split).last() == 5,
{
    if word.len() == 2 {
        assert(word.skip(0) =~= word);
    }
    lemma_neutral_stays(word, pos, tones, split, word.len() - 1);
}

/// A repeated character of a noun, verb or adjective is neutral, save in the words that keep their
/// tones.
pub proof fn repeated_characters_weaken(
    word: Seq<char>,
    pos: Seq<char>,
    tones: Seq<u32>,
    split: (Seq<char>, Seq<char>),
    i: int,
)
    requires
        tones.len() == word.len(),
        0 < i < word.len(),
        word[i] == word[i - 1],
        !full_tone_words().contains(word),
        pos.len() > 0,
        pos[0] == 'n' || pos[0] == 'v' || pos[0] == 'a',
    ensures
        sandhi_tones(word, pos, tones, split)[i] == 5,
{
    reveal_strlit("nva");
    assert("nva"@[0] == 'n' && "nva"@[1] == 'v' && "nva"@[2] == 'a');
    lemma_neutral_stays(word, pos, tones, split, i);
}

/// Endings are neutral: those of the plural and of nouns, those of places, and directions behind
/// verbs of motion; so are the aspect particles, and "个" behind what is counted.
pub proof fn endings_weaken(
    word: Seq<char>,
    pos: Seq<char>,
    tones: Seq<u32>,
    split: (Seq<char>, Seq<char>),
)
    requires
        tones.len() == word.len(),
        word.len() > 0,
    ensures
        ({
            let c = word.last();
            let ends = sandhi_tones(word, pos, tones, split).last() == 5;
            &&& word.len() > 1 && (c == '们' || c == '子') && (pos == seq!['r'] || pos == seq!['n'])
                && !full_tone_words().contains(word) ==> ends
            &&& word.len() > 1 && (c == '上' || c == '下' || c == '里') && pos.len() > 0 && (pos[0]
                == 's' || pos[0] == 'l' || pos[0] == 'f') ==> ends
            &&& word.len() > 1 && (c == '来' || c == '去') && "上下进出回过起开"@.contains(
                word[word.len() - 2],
            ) ==> ends
            &&& word.len() == 1 && (c == '了' || c == '着' || c == '过') && (pos == seq!['u', 'l']
                || pos == seq!['u', 'z'] || pos == seq!['u', 'g']) ==> ends
            &&& word.len() == 2 && c == '个' && ('0' <= word[0] <= '9'
                || "几有两半多各整每做是"@.contains(word[0])) ==> ends
        }),
{
    reveal_strlit("们子");
    reveal_strlit("上下里");
    reveal_strlit("来去");
    reveal_strlit("了着过");
    reveal_strlit("slf");
    reveal_strlit("r");
    reveal_strlit("n");
    reveal_strlit("ul");
    reveal_strlit("uz");
    reveal_strlit("ug");
    reveal_strlit("吧呢哈啊呐噻嘛吖嗨哦哒额滴哩哟喽啰耶喔诶");
    reveal_strlit("的地得");
    reveal_strlit("个");
    reveal_strlit("几有两半多各整每做是");
    let c = word.last();
    let i = word.len() - 1;
    assert("们子"@[0] == '们' && "们子"@[1] == '子');
    assert("上下里"@[0] == '上' && "上下里"@[1] == '下' && "上下里"@[2] == '里');
    assert("来去"@[0] == '来' && "来去"@[1] == '去');
    assert("了着过"@[0] == '了' && "了着过"@[1] == '着' && "了着过"@[2] == '过');
    assert("slf"@[0] == 's' && "slf"@[1] == 'l' && "slf"@[2] == 'f');
    assert("r"@ =~= seq!['r'] && "n"@ =~= seq!['n']);
    assert("ul"@ =~= seq!['u', 'l'] && "uz"@ =~= seq!['u', 'z'] && "ug"@ =~= seq!['u', 'g']);
    if word.len() == 2 && c == '个' && ('0' <= word[0] <= '9' || "几有两半多各整每做是"@.contains(
        word[0],
    )) {
        assert(word[1] == '个');
        assert(word.contains('个'));
        assert(word[0] != '个');
        let g = first_ge(word);
        assert(0 <= 1 < word.len() && word[1] == '个' && forall|k: int| 0 <= k < 1 ==> word[k]
            != '个');
        assert(0 <= g < word.len() && word[g] == '个');
        assert(g == 1);
        assert(!ends_in(word, particles()) && !ends_in(word, "的地得"@));
        assert(!has_neutral_suffix(word, pos));
    }
    if is_neutral(word, pos, word.len(), split, i) {
        lemma_neutral_stays(word, pos, tones, split, i);
    }
}

/// The part at which a word is cut is the first of the shortest ones, and the two pieces have as many
/// characters as the word; a word is cut behind a part that it begins with.
pub proof fn words_are_cut_at_the_shortest_part(word: Seq<char>, parts: Seq<Seq<char>>)
    requires
        parts.len() > 0,
        forall|i: int| 0 <= i < parts.len() ==> (#[trigger] parts[i]).len() <= word.len(),
    ensures
        ({
            let k = first_shortest(parts);
            let (a, b) = split_at_shortest(word, parts);
            &&& 0 <= k < parts.len()
            &&& forall|i: int|
                0 <= i < parts.len() ==> parts[k].len() <= (#[trigger] parts[i]).len()
            &&& forall|i: int| 0 <= i < k ==> parts[k].len() < (#[trigger] parts[i]).len()
            &&& a.len() + b.len() == word.len()
            &&& a == parts[k] || b == parts[k]
            &&& word.take(parts[k].len() as int) == parts[k] ==> a == parts[k] && a + b == word
        }),
{
    lemma_first_shortest(parts);
    let k = first_shortest(parts);
    let part = parts[k];
    assert(part.len() <= word.len());
    assert(word.subrange(0, part.len() as int) =~= word.take(part.len() as int));
    if word.take(part.len() as int) == part {
        assert(part + word.skip(part.len() as int) =~= word);
    }
}

proof fn lemma_first_shortest(parts: Seq<Seq<char>>)
    requires
        parts.len() > 0,
    ensures
        0 <= first_shortest(parts) < parts.len(),
        forall|i: int|
            0 <= i < parts.len() ==> parts[first_shortest(parts)].len() <= (
            #[trigger] parts[i]).len(),
        forall|i: int|
            0 <= i < first_shortest(parts) ==> parts[first_shortest(parts)].len() < (
            #[trigger] parts[i]).len(),
    decreases parts.len(),
{
    if parts.len() > 1 {
        let rest = parts.drop_last();
        lemma_first_shortest(rest);
        let k = first_shortest(rest);
        assert(rest[k] == parts[k]);
        assert forall|i: int| 0 <= i < parts.len() implies parts[first_shortest(parts)].len() <= (
        #[trigger] parts[i]).len() by {
            if i < rest.len() {
                assert(rest[i] == parts[i]);
            }
        }
        assert forall|i: int| 0 <= i < first_shortest(parts) implies parts[first_shortest(
            parts,
        )].len() < (#[trigger] parts[i]).len() by {
            assert(rest[i] == parts[i]);
        }
    }
}

} // verus!
