//! Pronunciation of English words: a dictionary, and spelling for words it lacks.

use crate::strings::{
    chars_of, is_letter, join, join_strings, lemma_prefix_ends, lemma_prefix_len, lemma_views_push, lines, matches_at,
    occurs_at, one_of, prefix_len, split_lines, string_between, uppercase, views,
};
use vstd::hash_map::StringHashMap;
use vstd::prelude::*;

verus! {

/// A dictionary of pronunciations, by its views.
pub open spec fn dict_view(m: Map<Seq<char>, String>) -> Map<Seq<char>, Seq<char>> {
    m.map_values(|s: String| s@)
}

/// Length of the part of a line before its first tab.
pub open spec fn head_len(line: Seq<char>) -> nat {
    prefix_len(line, |c: char| c != '\t')
}

/// The entries of the given lines: a word, a tab and its pronunciation; lines without a tab
/// are no entries, later lines win.
pub open spec fn entries(lines: Seq<Seq<char>>) -> Map<Seq<char>, Seq<char>>
    decreases lines.len(),
{
    if lines.len() == 0 {
        Map::empty()
    } else {
        let line = lines.last();
        let n = head_len(line);
        if n < line.len() {
            entries(lines.drop_last()).insert(line.take(n as int), line.skip(n as int + 1))
        } else {
            entries(lines.drop_last())
        }
    }
}

/// Reads a pronouncing dictionary: one word per line, a tab, its phonemes.
pub fn load_cmudict(text: &str) -> (m: StringHashMap<String>)
    ensures
        dict_view(m@) == entries(lines(text@)),
{
    let parts = split_lines(text);
    let ghost all = views(parts@);
    let mut m = StringHashMap::<String>::new();
    assert(dict_view(m@) =~= Map::empty());
    for i in 0..parts.len()
        invariant
            all == views(parts@),
            dict_view(m@) == entries(all.take(i as int)),
    {
        let line = chars_of(parts[i].as_str());
        proof {
            assert(all.take(i + 1).drop_last() =~= all.take(i as int));
            assert(all.take(i + 1).last() == line@);
            assert(line@.skip(0) =~= line@);
            lemma_prefix_len(line@, |c: char| c != '\t');
        }
        let mut n: usize = 0;
        while n < line.len() && line[n] != '\t'
            invariant
                n <= line@.len(),
                head_len(line@) == n + head_len(line@.skip(n as int)),
            decreases line@.len() - n,
        {
            assert(line@.skip(n as int).skip(1) =~= line@.skip(n + 1));
            n = n + 1;
        }
        if n < line.len() {
            let word = string_between(line.as_slice(), 0, n);
            let phones = string_between(line.as_slice(), n + 1, line.len());
            let ghost before = m@;
            proof {
                assert(word@ =~= line@.take(n as int));
                assert(phones@ =~= line@.skip(n + 1));
                assert(dict_view(before.insert(word@, phones)) =~= dict_view(before).insert(
                    word@,
                    phones@,
                ));
            }
            m.insert(word, phones);
        }
    }
    assert(all.take(all.len() as int) =~= all);
    m
}

/// The text without what follows its last letter.
pub open spec fn without_tail(s: Seq<char>) -> Seq<char>
    decreases s.len(),
{
    if s.len() > 0 && !is_letter(s.last()) {
        without_tail(s.drop_last())
    } else {
        s
    }
}

/// Whether an uppercase word is a possessive.
pub open spec fn is_possessive(upper: Seq<char>) -> bool {
    occurs_at(upper, "'S"@, upper.len() - 2)
}

/// The pronunciation of an uppercase word: its own, that of the word without what follows
/// its last letter, or that of the word without its possessive ending.
pub open spec fn pronunciation(dict: Map<Seq<char>, Seq<char>>, upper: Seq<char>) -> Option<
    Seq<char>,
> {
    if dict.contains_key(upper) {
        Some(dict[upper])
    } else if dict.contains_key(without_tail(upper)) {
        Some(dict[without_tail(upper)])
    } else if is_possessive(upper) && dict.contains_key(upper.take(upper.len() - 2)) {
        Some(dict[upper.take(upper.len() - 2)])
    } else {
        None
    }
}

/// The pronunciation of an uppercase word.
pub fn lookup_upper<'a>(dict: &'a StringHashMap<String>, upper: &str) -> (r: Option<&'a str>)
    ensures
        match r {
            Some(s) => pronunciation(dict_view(dict@), upper@) == Some(s@),
            None => pronunciation(dict_view(dict@), upper@) is None,
        },
{
    if let Some(s) = dict.get(upper) {
        return Some(s.as_str());
    }
    let chars = chars_of(upper);
    let mut n: usize = chars.len();
    assert(chars@.take(n as int) =~= chars@);
    while n > 0 && !chars[n - 1].is_alphabetic()
        invariant
            n <= chars@.len(),
            without_tail(chars@.take(n as int)) == without_tail(chars@),
        decreases n,
    {
        assert(chars@.take(n as int).drop_last() =~= chars@.take(n - 1));
        n = n - 1;
    }
    let stripped = string_between(chars.as_slice(), 0, n);
    assert(stripped@ =~= chars@.take(n as int));
    if let Some(s) = dict.get(stripped.as_str()) {
        return Some(s.as_str());
    }
    let ending = chars_of("'S");
    proof {
        reveal_strlit("'S");
    }
    if chars.len() >= 2 && matches_at(chars.as_slice(), ending.as_slice(), chars.len() - 2) {
        let base = string_between(chars.as_slice(), 0, chars.len() - 2);
        assert(base@ =~= chars@.take(chars@.len() - 2));
        if let Some(s) = dict.get(base.as_str()) {
            return Some(s.as_str());
        }
    }
    None
}

/// The pronunciation of a word.
pub fn lookup<'a>(dict: &'a StringHashMap<String>, word: &str) -> (r: Option<&'a str>)
    ensures
        match r {
            Some(s) => pronunciation(dict_view(dict@), uppercase(word@)) == Some(s@),
            None => pronunciation(dict_view(dict@), uppercase(word@)) is None,
        },
{
    lookup_upper(dict, word.to_uppercase().as_str())
}

/// The phonemes of a letter's name; the letters are those from A to Z.
pub open spec fn letter_name(c: char) -> Option<Seq<char>> {
    match c {
        'A' => Some("EY1"@),
        'B' => Some("B IY1"@),
        'C' => Some("S IY1"@),
        'D' => Some("D IY1"@),
        'E' => Some("IY1"@),
        'F' => Some("EH1 F"@),
        'G' => Some("JH IY1"@),
        'H' => Some("EY1 CH"@),
        'I' => Some("AY1"@),
        'J' => Some("JH EY1"@),
        'K' => Some("K EY1"@),
        'L' => Some("EH1 L"@),
        'M' => Some("EH1 M"@),
        'N' => Some("EH1 N"@),
        'O' => Some("OW1"@),
        'P' => Some("P IY1"@),
        'Q' => Some("K Y UW1"@),
        'R' => Some("AA1 R"@),
        'S' => Some("EH1 S"@),
        'T' => Some("T IY1"@),
        'U' => Some("Y UW1"@),
        'V' => Some("V IY1"@),
        'W' => Some("D AH1 B AH0 L Y UW1"@),
        'X' => Some("EH1 K S"@),
        'Y' => Some("W AY1"@),
        'Z' => Some("Z IY1"@),
        _ => None,
    }
}

/// The phonemes of a letter's name.
fn name_of_letter(c: char) -> (r: Option<&'static str>)
    ensures
        match r {
            Some(s) => letter_name(c) == Some(s@),
            None => letter_name(c) is None,
        },
{
    match c {
        'A' => Some("EY1"),
        'B' => Some("B IY1"),
        'C' => Some("S IY1"),
        'D' => Some("D IY1"),
        'E' => Some("IY1"),
        'F' => Some("EH1 F"),
        'G' => Some("JH IY1"),
        'H' => Some("EY1 CH"),
        'I' => Some("AY1"),
        'J' => Some("JH EY1"),
        'K' => Some("K EY1"),
        'L' => Some("EH1 L"),
        'M' => Some("EH1 M"),
        'N' => Some("EH1 N"),
        'O' => Some("OW1"),
        'P' => Some("P IY1"),
        'Q' => Some("K Y UW1"),
        'R' => Some("AA1 R"),
        'S' => Some("EH1 S"),
        'T' => Some("T IY1"),
        'U' => Some("Y UW1"),
        'V' => Some("V IY1"),
        'W' => Some("D AH1 B AH0 L Y UW1"),
        'X' => Some("EH1 K S"),
        'Y' => Some("W AY1"),
        'Z' => Some("Z IY1"),
        _ => None,
    }
}

/// The names of the letters of an uppercase word.
pub open spec fn letter_names(upper: Seq<char>) -> Seq<Seq<char>>
    decreases upper.len(),
{
    if upper.len() == 0 {
        Seq::empty()
    } else {
        let before = letter_names(upper.drop_last());
        match letter_name(upper.last()) {
            Some(name) => before.push(name),
            None => before,
        }
    }
}

/// An uppercase word spelled out, letter by letter.
pub open spec fn spelling(upper: Seq<char>) -> Seq<char> {
    join(letter_names(upper), " "@)
}

/// An uppercase word spelled out, letter by letter.
pub fn spell_upper(upper: &str) -> (r: String)
    ensures
        r@ == spelling(upper@),
{
    let chars = chars_of(upper);
    let mut names: Vec<String> = Vec::new();
    assert(views(names@) =~= Seq::empty());
    for i in 0..chars.len()
        invariant
            chars@ == upper@,
            views(names@) == letter_names(chars@.take(i as int)),
    {
        assert(chars@.take(i + 1).drop_last() =~= chars@.take(i as int));
        if let Some(name) = name_of_letter(chars[i]) {
            let owned = name.to_owned();
            proof {
                lemma_views_push(names@, owned);
            }
            names.push(owned);
        }
    }
    assert(chars@.take(chars@.len() as int) =~= chars@);
    join_strings(&names, " ")
}

/// A word spelled out, letter by letter.
pub fn spell_arpabet(word: &str) -> (r: String)
    ensures
        r@ == spelling(uppercase(word@)),
{
    spell_upper(word.to_uppercase().as_str())
}

/// The letters and apostrophes of a word.
pub open spec fn only_letters(word: Seq<char>) -> Seq<char>
    decreases word.len(),
{
    if word.len() == 0 {
        Seq::empty()
    } else {
        let before = only_letters(word.drop_last());
        if is_letter(word.last()) || word.last() == '\'' {
            before.push(word.last())
        } else {
            before
        }
    }
}

/// The letters and apostrophes of the characters from `from` up to `to`.
fn letters_between(chars: &Vec<char>, from: usize, to: usize) -> (r: String)
    requires
        from <= to <= chars@.len(),
    ensures
        r@ == only_letters(chars@.subrange(from as int, to as int)),
{
    let mut r = String::new();
    for i in from..to
        invariant
            to <= chars@.len(),
            r@ == only_letters(chars@.subrange(from as int, i as int)),
    {
        assert(chars@.subrange(from as int, i + 1).drop_last() =~= chars@.subrange(
            from as int,
            i as int,
        ));
        if chars[i].is_alphabetic() || chars[i] == '\'' {
            r.push(chars[i]);
        }
    }
    r
}

/// The phonemes of a word's letters: as the dictionary has them, else spelled out.
pub open spec fn letters_spoken(dict: Map<Seq<char>, Seq<char>>, letters: Seq<char>) -> Seq<char> {
    match pronunciation(dict, uppercase(letters)) {
        Some(phones) => phones,
        None => spelling(uppercase(letters)),
    }
}

/// The phonemes of a word's letters.
fn speak_letters(dict: &StringHashMap<String>, letters: &str) -> (r: String)
    ensures
        r@ == letters_spoken(dict_view(dict@), letters@),
{
    match lookup(dict, letters) {
        Some(s) => s.to_owned(),
        None => spell_arpabet(letters),
    }
}

/// Length of the part of a compound before its first hyphen.
pub open spec fn part_len(word: Seq<char>) -> nat {
    prefix_len(word, |c: char| c != '-')
}

/// The phonemes of the parts of a hyphenated compound; parts without letters are silent.
pub open spec fn parts_spoken(dict: Map<Seq<char>, Seq<char>>, word: Seq<char>) -> Seq<Seq<char>>
    decreases word.len(),
{
    proof {
        lemma_prefix_len(word, |c: char| c != '-');
    }
    let n = part_len(word);
    let letters = only_letters(word.take(n as int));
    let first = if letters.len() > 0 {
        seq![letters_spoken(dict, letters)]
    } else {
        Seq::empty()
    };
    if n < word.len() {
        first + parts_spoken(dict, word.skip(n as int + 1))
    } else {
        first
    }
}

/// The phonemes of an English word: as the dictionary has it, else part by part where it is
/// a hyphenated compound, else spelled out. A word without letters is silent.
pub open spec fn word_spoken(dict: Map<Seq<char>, Seq<char>>, word: Seq<char>) -> Seq<char> {
    let letters = only_letters(word);
    if letters.len() == 0 {
        Seq::empty()
    } else if pronunciation(dict, uppercase(letters)) is None && word.contains('-') {
        join(parts_spoken(dict, word), " "@)
    } else {
        letters_spoken(dict, letters)
    }
}

/// The phonemes of the parts of a hyphenated compound.
fn speak_parts(dict: &StringHashMap<String>, chars: &Vec<char>) -> (r: Vec<String>)
    ensures
        views(r@) == parts_spoken(dict_view(dict@), chars@),
{
    let ghost d = dict_view(dict@);
    let mut r: Vec<String> = Vec::new();
    let mut i: usize = 0;
    assert(chars@.skip(0) =~= chars@);
    assert(views(r@) + parts_spoken(d, chars@) =~= parts_spoken(d, chars@));
    loop
        invariant
            i <= chars@.len(),
            d == dict_view(dict@),
            views(r@) + parts_spoken(d, chars@.skip(i as int)) == parts_spoken(d, chars@),
        ensures
            views(r@) == parts_spoken(d, chars@),
        decreases chars@.len() - i,
    {
        let ghost rest = chars@.skip(i as int);
        let ghost before = views(r@);
        let start: usize = i;
        while i < chars.len() && chars[i] != '-'
            invariant
                start <= i <= chars@.len(),
                rest == chars@.skip(start as int),
                part_len(rest) == i - start + part_len(chars@.skip(i as int)),
            decreases chars@.len() - i,
        {
            assert(chars@.skip(i as int).skip(1) =~= chars@.skip(i + 1));
            i = i + 1;
        }
        let ghost n = part_len(rest);
        let letters = letters_between(chars, start, i);
        assert(chars@.subrange(start as int, i as int) =~= rest.take(n as int));
        let ghost first = if letters@.len() > 0 {
            seq![letters_spoken(d, letters@)]
        } else {
            Seq::empty()
        };
        if !letters.as_str().is_empty() {
            let spoken = speak_letters(dict, letters.as_str());
            proof {
                lemma_views_push(r@, spoken);
            }
            r.push(spoken);
        }
        assert(views(r@) =~= before + first);
        if i == chars.len() {
            break;
        }
        i = i + 1;
        assert(rest.skip(n as int + 1) =~= chars@.skip(i as int));
        assert(before + (first + parts_spoken(d, chars@.skip(i as int))) =~= views(r@)
            + parts_spoken(d, chars@.skip(i as int)));
    }
    r
}

/// The phonemes of an English word, space-separated.
pub fn speak_word(dict: &StringHashMap<String>, word: &str) -> (r: String)
    ensures
        r@ == word_spoken(dict_view(dict@), word@),
{
    let chars = chars_of(word);
    let letters = letters_between(&chars, 0, chars.len());
    assert(chars@.subrange(0, chars@.len() as int) =~= chars@);
    if letters.as_str().is_empty() {
        return String::new();
    }
    if let Some(s) = lookup(dict, letters.as_str()) {
        return s.to_owned();
    }
    if one_of('-', word) {
        let parts = speak_parts(dict, &chars);
        return join_strings(&parts, " ");
    }
    spell_arpabet(letters.as_str())
}

/// A line with a tab is an entry for what stands before its first tab, and wins over the lines
/// before it; a line without one changes nothing.
pub proof fn later_lines_win(lines: Seq<Seq<char>>, word: Seq<char>, phones: Seq<char>)
    requires
        !word.contains('\t'),
    ensures
        entries(lines.push(word + seq!['\t'] + phones)) == entries(lines).insert(word, phones),
        entries(lines.push(word)) == entries(lines),
        entries(Seq::empty()) == Map::<Seq<char>, Seq<char>>::empty(),
{
    let p = |c: char| c != '\t';
    let n = word.len() as int;
    assert forall|i: int| 0 <= i < n implies p(#[trigger] word[i]) by {
        assert(word.contains(word[i]));
    }
    lemma_prefix_ends(word, p, n);
    let line = word + seq!['\t'] + phones;
    assert forall|i: int| 0 <= i < n implies p(#[trigger] line[i]) by {
        assert(p(word[i]));
    }
    lemma_prefix_ends(line, p, n);
    assert(line.take(n) =~= word);
    assert(line.skip(n + 1) =~= phones);
    assert(lines.push(line).drop_last() =~= lines);
    assert(lines.push(word).drop_last() =~= lines);
}

proof fn lemma_without_tail(stem: Seq<char>, tail: Seq<char>)
    requires
        stem.len() == 0 || is_letter(stem.last()),
        forall|i: int| 0 <= i < tail.len() ==> !is_letter(#[trigger] tail[i]),
    ensures
        without_tail(stem + tail) == stem,
    decreases tail.len(),
{
    if tail.len() == 0 {
        assert(stem + tail =~= stem);
    } else {
        let s = stem + tail;
        assert(s.last() == tail[tail.len() - 1]);
        assert(s.drop_last() =~= stem + tail.drop_last());
        lemma_without_tail(stem, tail.drop_last());
    }
}

/// A word that the dictionary has is spoken as it says. Where it lacks a word, the word without
/// the marks behind its last letter is looked up, and then the word without its possessive
/// ending.
pub proof fn words_are_looked_up(
    dict: Map<Seq<char>, Seq<char>>,
    stem: Seq<char>,
    tail: Seq<char>,
)
    requires
        stem.len() > 0,
        is_letter(stem.last()),
        forall|i: int| 0 <= i < tail.len() ==> !is_letter(#[trigger] tail[i]),
    ensures
        dict.contains_key(stem + tail) ==> pronunciation(dict, stem + tail) == Some(
            dict[stem + tail],
        ),
        !dict.contains_key(stem + tail) && dict.contains_key(stem) ==> pronunciation(
            dict,
            stem + tail,
        ) == Some(dict[stem]),
        !dict.contains_key(stem + seq!['\'', 'S']) && dict.contains_key(stem) ==> pronunciation(
            dict,
            stem + seq!['\'', 'S'],
        ) == Some(dict[stem]),
        !dict.contains_key(stem + tail) && !dict.contains_key(stem) && !(tail.len() == 0
            && stem.len() >= 2 && stem[stem.len() - 2] == '\'' && stem.last() == 'S')
            ==> pronunciation(dict, stem + tail) is None,
{
    reveal_strlit("'S");
    lemma_without_tail(stem, tail);
    let possessive = stem + seq!['\'', 'S'];
    assert(is_letter('S'));
    lemma_without_tail(possessive, Seq::empty());
    assert(possessive + Seq::<char>::empty() =~= possessive);
    assert(possessive.subrange(possessive.len() - 2, possessive.len() as int) =~= "'S"@);
    assert(possessive.take(possessive.len() - 2) =~= stem);
    let s = stem + tail;
    if is_possessive(s) {
        assert(s.subrange(s.len() - 2, s.len() as int) == "'S"@);
        assert(s.subrange(s.len() - 2, s.len() as int)[1] == 'S');
        assert(s.subrange(s.len() - 2, s.len() as int)[0] == '\'');
        assert(s.last() == 'S');
        if tail.len() > 0 {
            assert(s.last() == tail[tail.len() - 1]);
        }
        assert(tail.len() == 0);
        assert(s =~= stem);
    }
}

/// The names of the letters from A to Z, as they are spoken.
pub open spec fn alphabet() -> Seq<Seq<char>> {
    seq![
        "EY1"@,
        "B IY1"@,
        "S IY1"@,
        "D IY1"@,
        "IY1"@,
        "EH1 F"@,
        "JH IY1"@,
        "EY1 CH"@,
        "AY1"@,
        "JH EY1"@,
        "K EY1"@,
        "EH1 L"@,
        "EH1 M"@,
        "EH1 N"@,
        "OW1"@,
        "P IY1"@,
        "K Y UW1"@,
        "AA1 R"@,
        "EH1 S"@,
        "T IY1"@,
        "Y UW1"@,
        "V IY1"@,
        "D AH1 B AH0 L Y UW1"@,
        "EH1 K S"@,
        "W AY1"@,
        "Z IY1"@,
    ]
}

/// Words are spelled letter by letter: each letter from A to Z has its own name, any other
/// character none, and the names follow one another as the letters do.
pub proof fn words_are_spelled_in_order(a: Seq<char>, b: Seq<char>, c: char)
    ensures
        letter_names(a + b) == letter_names(a) + letter_names(b),
        letter_names(seq![c]) == if 65 <= c as u32 <= 90 {
            seq![alphabet()[c as u32 - 65]]
        } else {
            Seq::empty()
        },
    decreases b.len(),
{
    assert(seq![c].drop_last().len() == 0);
    assert(letter_names(seq![c].drop_last()) =~= Seq::empty());
    if b.len() == 0 {
        assert(a + b =~= a);
        assert(letter_names(a) + letter_names(b) =~= letter_names(a));
    } else {
        words_are_spelled_in_order(a, b.drop_last(), c);
        assert((a + b).drop_last() =~= a + b.drop_last());
        assert((a + b).last() == b.last());
        assert(letter_names(a + b) =~= letter_names(a) + letter_names(b));
    }
}

/// Of a word its letters and apostrophes are spoken, in their order, and nothing else.
pub proof fn letters_are_spoken_in_order(a: Seq<char>, b: Seq<char>, c: char)
    ensures
        only_letters(a + b) == only_letters(a) + only_letters(b),
        only_letters(seq![c]) == if is_letter(c) || c == '\'' {
            seq![c]
        } else {
            Seq::empty()
        },
    decreases b.len(),
{
    assert(seq![c].drop_last().len() == 0);
    assert(only_letters(seq![c].drop_last()) =~= Seq::empty());
    assert(only_letters(seq![c]) =~= if is_letter(c) || c == '\'' {
        seq![c]
    } else {
        Seq::empty()
    });
    if b.len() == 0 {
        assert(a + b =~= a);
        assert(only_letters(a) + only_letters(b) =~= only_letters(a));
    } else {
        letters_are_spoken_in_order(a, b.drop_last(), c);
        assert((a + b).drop_last() =~= a + b.drop_last());
        assert((a + b).last() == b.last());
        assert(only_letters(a + b) =~= only_letters(a) + only_letters(b));
    }
}

/// A compound is spoken part by part: what stands before its first hyphen, and then the rest.
pub proof fn compounds_are_spoken_part_by_part(
    dict: Map<Seq<char>, Seq<char>>,
    a: Seq<char>,
    b: Seq<char>,
)
    requires
        !a.contains('-'),
    ensures
        parts_spoken(dict, a + seq!['-'] + b) == parts_spoken(dict, a) + parts_spoken(dict, b),
        only_letters(a).len() == 0 ==> parts_spoken(dict, a) == Seq::<Seq<char>>::empty(),
        only_letters(a).len() > 0 ==> parts_spoken(dict, a) == seq![word_spoken(dict, a)],
{
    let p = |c: char| c != '-';
    let n = a.len() as int;
    assert forall|i: int| 0 <= i < n implies p(#[trigger] a[i]) by {
        assert(a.contains(a[i]));
    }
    lemma_prefix_ends(a, p, n);
    assert(a.take(n) =~= a);
    let s = a + seq!['-'] + b;
    assert forall|i: int| 0 <= i < n implies p(#[trigger] s[i]) by {
        assert(p(a[i]));
    }
    lemma_prefix_ends(s, p, n);
    assert(s.take(n) =~= a);
    assert(s.skip(n + 1) =~= b);
}

/// A word whose letters the dictionary has is spoken as it says, hyphens or not; a word that it
/// lacks is spelled out where it has no hyphen, and spoken part by part where it has one; a word
/// without letters is silent.
pub proof fn words_are_spoken_as_known(dict: Map<Seq<char>, Seq<char>>, word: Seq<char>)
    ensures
        only_letters(word).len() == 0 ==> word_spoken(dict, word).len() == 0,
        only_letters(word).len() > 0 && dict.contains_key(uppercase(only_letters(word)))
            ==> word_spoken(dict, word) == dict[uppercase(only_letters(word))],
        only_letters(word).len() > 0 && pronunciation(dict, uppercase(only_letters(word))) is None
            && !word.contains('-') ==> word_spoken(dict, word) == join(
            letter_names(uppercase(only_letters(word))),
            seq![' '],
        ),
        only_letters(word).len() > 0 && pronunciation(dict, uppercase(only_letters(word))) is None
            && word.contains('-') ==> word_spoken(dict, word) == join(
            parts_spoken(dict, word),
            seq![' '],
        ),
{
    reveal_strlit(" ");
    assert(" "@ =~= seq![' ']);
}

} // verus!
