//! Text splitting policies for inference.

use crate::strings::{
    ascii_lowercase, ascii_lowered, chars_of, concat, digit, is_digit, is_letter_or_number, is_space,
    lemma_views_push, occurs_at, one_of, replace, replaced, same, trim, trimmed, trimmed_end,
    trimmed_start, views,
};
use crate::Language;
use vstd::prelude::*;

verus! {

/// Where a text is split.
#[derive(Debug, Clone, Copy, PartialEq, Eq, Structural)]
pub enum SplitMethod {
    /// At sentence ends.
    Sentence,
    /// At sentence ends, commas, colons and semicolons.
    Cut5,
}

impl Default for SplitMethod {
    fn default() -> (r: Self)
        ensures
            r == SplitMethod::Sentence,
    {
        SplitMethod::Sentence
    }
}

/// The method that a lowercase name stands for.
pub open spec fn method_named(name: Seq<char>) -> Option<SplitMethod> {
    if name == "sentence"@ {
        Some(SplitMethod::Sentence)
    } else if name == "cut5"@ {
        Some(SplitMethod::Cut5)
    } else {
        None
    }
}

impl SplitMethod {
    /// The method that a name stands for, in any ASCII case.
    pub fn parse(value: &str) -> (r: Option<Self>)
        ensures
            r == method_named(ascii_lowered(value@)),
    {
        let name = ascii_lowercase(value);
        if same(name.as_str(), "sentence") {
            Some(SplitMethod::Sentence)
        } else if same(name.as_str(), "cut5") {
            Some(SplitMethod::Cut5)
        } else {
            None
        }
    }
}

/// The characters after which a text is cut.
pub open spec fn delimiters(method: SplitMethod) -> Seq<char> {
    match method {
        SplitMethod::Sentence => ".?!。？！…\n"@,
        SplitMethod::Cut5 => ",.;?!、，。？！；：:…\n"@,
    }
}

/// The text that is cut: the finer method reads a Chinese ellipsis as a full stop and a
/// Chinese dash as a comma.
pub open spec fn prepared(text: Seq<char>, method: SplitMethod) -> Seq<char> {
    match method {
        SplitMethod::Sentence => text,
        SplitMethod::Cut5 => replaced(replaced(text, "……"@, "。"@), "——"@, "，"@),
    }
}

/// Whether a text is cut after character `i`: it is a delimiter, and no point between digits.
pub open spec fn cuts_after(chars: Seq<char>, i: int, method: SplitMethod) -> bool {
    &&& delimiters(method).contains(chars[i])
    &&& !(chars[i] == '.' && 0 < i < chars.len() - 1 && is_digit(chars[i - 1]) && is_digit(
        chars[i + 1],
    ))
}

/// Whether a text holds a letter or a number.
pub open spec fn has_sound(s: Seq<char>) -> bool {
    exists|i: int| 0 <= i < s.len() && is_letter_or_number(#[trigger] s[i])
}

/// The sentences among the first `k` characters, without white space around them, and the
/// characters behind the last cut. A piece without letters and numbers is no sentence.
pub open spec fn cut_upto(chars: Seq<char>, k: nat, method: SplitMethod) -> (
    Seq<Seq<char>>,
    Seq<char>,
)
    decreases k,
{
    if k == 0 {
        (Seq::empty(), Seq::empty())
    } else {
        let (sentences, open) = cut_upto(chars, (k - 1) as nat, method);
        let piece = open.push(chars[k - 1]);
        if cuts_after(chars, k - 1, method) && trimmed(piece).len() > 0 {
            (
                if has_sound(trimmed(piece)) {
                    sentences.push(trimmed(piece))
                } else {
                    sentences
                },
                Seq::empty(),
            )
        } else {
            (sentences, piece)
        }
    }
}

/// The mark that ends a text in a language.
pub open spec fn full_stop(language: Language) -> char {
    if language == Language::English {
        '.'
    } else {
        '。'
    }
}

/// The end of a text, with a full stop where no delimiter ends it.
pub open spec fn closed(tail: Seq<char>, language: Language, method: SplitMethod) -> Seq<char> {
    if delimiters(method).contains(tail.last()) {
        tail
    } else {
        tail.push(full_stop(language))
    }
}

/// The sentences of a text.
pub open spec fn sentences(chars: Seq<char>, language: Language, method: SplitMethod) -> Seq<
    Seq<char>,
> {
    let (done, open) = cut_upto(chars, chars.len(), method);
    if has_sound(trimmed(open)) {
        done.push(closed(trimmed(open), language, method))
    } else {
        done
    }
}

/// The first `k` sentences gathered until they have `min` characters, and what is not yet
/// enough.
pub open spec fn gathered(sentences: Seq<Seq<char>>, k: nat, min: nat) -> (Seq<Seq<char>>, Seq<char>)
    decreases k,
{
    if k == 0 {
        (Seq::empty(), Seq::empty())
    } else {
        let (chunks, part) = gathered(sentences, (k - 1) as nat, min);
        let more = part + sentences[k - 1];
        if more.len() >= min {
            (chunks.push(trimmed(more)), Seq::empty())
        } else {
            (chunks, more)
        }
    }
}

/// The sentences in chunks of at least `min` characters; what is left over goes with the last
/// chunk, or is a chunk where there is no other.
pub open spec fn chunks(sentences: Seq<Seq<char>>, min: nat) -> Seq<Seq<char>> {
    let (done, part) = gathered(sentences, sentences.len(), min);
    if trimmed(part).len() == 0 {
        done
    } else if done.len() > 0 {
        done.update(done.len() - 1, done.last() + part)
    } else {
        seq![trimmed(part)]
    }
}

/// The chunks that a text is split into.
pub open spec fn text_chunks(
    text: Seq<char>,
    min: nat,
    language: Language,
    method: SplitMethod,
) -> Seq<Seq<char>> {
    chunks(sentences(prepared(text, method), language, method), min)
}

/// Whether `c` ends a sentence of the method.
fn is_delimiter(c: char, method: SplitMethod) -> (r: bool)
    ensures
        r == delimiters(method).contains(c),
{
    match method {
        SplitMethod::Sentence => one_of(c, ".?!。？！…\n"),
        SplitMethod::Cut5 => one_of(c, ",.;?!、，。？！；：:…\n"),
    }
}

/// Whether a text holds a letter or a number.
fn sounds(s: &str) -> (r: bool)
    ensures
        r == has_sound(s@),
{
    let chars = chars_of(s);
    for i in 0..chars.len()
        invariant
            chars@ == s@,
            forall|k: int| 0 <= k < i ==> !is_letter_or_number(#[trigger] s@[k]),
    {
        if chars[i].is_alphanumeric() {
            assert(is_letter_or_number(s@[i as int]));
            return true;
        }
    }
    false
}

/// The sentences of a text.
fn cut_sentences(text: &str, language: Language, method: SplitMethod) -> (r: Vec<String>)
    ensures
        views(r@) == sentences(text@, language, method),
{
    let chars = chars_of(text);
    let mut done: Vec<String> = Vec::new();
    let mut open = String::new();
    assert(views(done@) =~= Seq::empty());
    for i in 0..chars.len()
        invariant
            chars@ == text@,
            (views(done@), open@) == cut_upto(chars@, i as nat, method),
    {
        open.push(chars[i]);
        let decimal = chars[i] == '.' && i > 0 && i < chars.len() - 1 && digit(chars[i - 1])
            && digit(chars[i + 1]);
        if is_delimiter(chars[i], method) && !decimal {
            let piece = trim(open.as_str());
            if !piece.as_str().is_empty() {
                if sounds(piece.as_str()) {
                    proof {
                        lemma_views_push(done@, piece);
                    }
                    done.push(piece);
                }
                open = String::new();
            }
        }
    }
    let mut tail = trim(open.as_str());
    if sounds(tail.as_str()) {
        let ends = chars_of(tail.as_str());
        if !is_delimiter(ends[ends.len() - 1], method) {
            tail.push(
                if language == Language::English {
                    '.'
                } else {
                    '。'
                },
            );
        }
        proof {
            lemma_views_push(done@, tail);
        }
        done.push(tail);
    }
    done
}

/// Gathers sentences into chunks.
fn gather(parts: &Vec<String>, min_chars: usize) -> (r: Vec<String>)
    ensures
        views(r@) == chunks(views(parts@), min_chars as nat),
{
    let ghost all = views(parts@);
    let mut done: Vec<String> = Vec::new();
    let mut part = String::new();
    assert(views(done@) =~= Seq::empty());
    for i in 0..parts.len()
        invariant
            all == views(parts@),
            (views(done@), part@) == gathered(all, i as nat, min_chars as nat),
    {
        assert(all[i as int] == parts@[i as int]@);
        part.push_str(parts[i].as_str());
        if chars_of(part.as_str()).len() >= min_chars {
            let chunk = trim(part.as_str());
            proof {
                lemma_views_push(done@, chunk);
            }
            done.push(chunk);
            part = String::new();
        }
    }
    let rest = trim(part.as_str());
    if !rest.as_str().is_empty() {
        match done.pop() {
            Some(last) => {
                let ghost before = done@;
                let mut last = last;
                last.push_str(part.as_str());
                done.push(last);
                assert(views(done@) =~= views(before.push(last)));
            },
            None => {
                done.push(rest);
                assert(views(done@) =~= seq![rest@]);
            },
        }
    }
    assert(views(done@) =~= chunks(all, min_chars as nat));
    done
}

/// Splits a text into chunks of at least `min_chars` characters.
pub fn split_text(text: &str, min_chars: usize, language: Language, method: SplitMethod) -> (r: Vec<
    String,
>)
    ensures
        views(r@) == text_chunks(text@, min_chars as nat, language, method),
{
    proof {
        reveal_strlit("……");
        reveal_strlit("——");
    }
    let normalized = match method {
        SplitMethod::Sentence => text.to_owned(),
        SplitMethod::Cut5 => replace(replace(text, "……", "。").as_str(), "——", "，"),
    };
    let parts = cut_sentences(normalized.as_str(), language, method);
    gather(&parts, min_chars)
}

/// Splits Chinese text at sentence ends.
pub fn split_sentences(text: &str, min_chars: usize) -> (r: Vec<String>)
    ensures
        views(r@) == text_chunks(
            text@,
            min_chars as nat,
            Language::Chinese,
            SplitMethod::Sentence,
        ),
{
    split_sentences_for_language(text, min_chars, Language::Chinese)
}

/// Splits text at sentence ends.
pub fn split_sentences_for_language(text: &str, min_chars: usize, language: Language) -> (r: Vec<
    String,
>)
    ensures
        views(r@) == text_chunks(text@, min_chars as nat, language, SplitMethod::Sentence),
{
    split_text(text, min_chars, language, SplitMethod::Sentence)
}

/// Splits text at sentence ends, commas, colons and semicolons.
pub fn split_cut5_for_language(text: &str, min_chars: usize, language: Language) -> (r: Vec<
    String,
>)
    ensures
        views(r@) == text_chunks(text@, min_chars as nat, language, SplitMethod::Cut5),
{
    split_text(text, min_chars, language, SplitMethod::Cut5)
}

/// Whether a text is not empty and has no white space at its ends.
pub open spec fn is_tight(s: Seq<char>) -> bool {
    s.len() > 0 && !is_space(s[0]) && !is_space(s.last())
}

proof fn lemma_trimmed_start(s: Seq<char>)
    ensures
        trimmed_start(s).len() > 0 ==> !is_space(trimmed_start(s)[0]) && trimmed_start(s).last()
            == s.last(),
        trimmed_start(s).len() <= s.len(),
        spoken(trimmed_start(s)) == spoken(s),
    decreases s.len(),
{
    if s.len() > 0 && is_space(s[0]) {
        lemma_trimmed_start(s.skip(1));
        assert(s =~= seq![s[0]] + s.skip(1));
        lemma_spoken_add(seq![s[0]], s.skip(1));
        assert(seq![s[0]].drop_last() =~= Seq::empty());
        assert(spoken(seq![s[0]]) =~= Seq::empty()) by {
            reveal_with_fuel(spoken, 2);
        }
        assert(Seq::<char>::empty() + spoken(s.skip(1)) =~= spoken(s.skip(1)));
    }
}

proof fn lemma_trimmed_end(s: Seq<char>)
    ensures
        trimmed_end(s).len() > 0 ==> !is_space(trimmed_end(s).last()) && trimmed_end(s)[0] == s[0],
        spoken(trimmed_end(s)) == spoken(s),
    decreases s.len(),
{
    if s.len() > 0 && is_space(s.last()) {
        lemma_trimmed_end(s.drop_last());
    }
}

proof fn lemma_trimmed(s: Seq<char>)
    ensures
        trimmed(s).len() > 0 ==> is_tight(trimmed(s)),
        spoken(trimmed(s)) == spoken(s),
{
    lemma_trimmed_start(s);
    lemma_trimmed_end(trimmed_start(s));
}

proof fn lemma_tight_stays(s: Seq<char>)
    requires
        is_tight(s),
    ensures
        trimmed(s) == s,
{
}

/// The letters and numbers of a text, in order.
pub open spec fn spoken(s: Seq<char>) -> Seq<char>
    decreases s.len(),
{
    if s.len() == 0 {
        Seq::empty()
    } else if is_letter_or_number(s.last()) {
        spoken(s.drop_last()).push(s.last())
    } else {
        spoken(s.drop_last())
    }
}

proof fn lemma_spoken_add(a: Seq<char>, b: Seq<char>)
    ensures
        spoken(a + b) == spoken(a) + spoken(b),
    decreases b.len(),
{
    if b.len() == 0 {
        assert(a + b =~= a);
        assert(spoken(a) + Seq::<char>::empty() =~= spoken(a));
    } else {
        assert((a + b).drop_last() =~= a + b.drop_last());
        lemma_spoken_add(a, b.drop_last());
        assert(spoken(a) + spoken(b.drop_last()).push(b.last()) =~= (spoken(a) + spoken(
            b.drop_last(),
        )).push(b.last()));
    }
}

proof fn lemma_silent(s: Seq<char>)
    requires
        !has_sound(s),
    ensures
        spoken(s) == Seq::<char>::empty(),
    decreases s.len(),
{
    if s.len() > 0 {
        assert(!is_letter_or_number(s[s.len() - 1]));
        assert forall|i: int| 0 <= i < s.drop_last().len() implies !is_letter_or_number(
            #[trigger] s.drop_last()[i],
        ) by {
            assert(!is_letter_or_number(s[i]));
        }
        lemma_silent(s.drop_last());
    }
}

proof fn lemma_concat_push(parts: Seq<Seq<char>>, part: Seq<char>)
    ensures
        concat(parts.push(part)) == concat(parts) + part,
{
    assert(parts.push(part).drop_last() =~= parts);
}

proof fn lemma_cut_keeps(chars: Seq<char>, k: nat, method: SplitMethod)
    requires
        k <= chars.len(),
    ensures
        ({
            let (done, open) = cut_upto(chars, k, method);
            &&& spoken(concat(done)) + spoken(open) == spoken(chars.take(k as int))
            &&& forall|i: int| 0 <= i < done.len() ==> is_tight(#[trigger] done[i])
        }),
    decreases k,
{
    if k == 0 {
        assert(chars.take(0) =~= Seq::empty());
        assert(spoken(Seq::empty()) + spoken(Seq::empty()) =~= Seq::<char>::empty());
    } else {
        lemma_cut_keeps(chars, (k - 1) as nat, method);
        let (done, open) = cut_upto(chars, (k - 1) as nat, method);
        let c = chars[k - 1];
        let piece = open.push(c);
        assert(chars.take(k as int) =~= chars.take(k - 1) + seq![c]);
        assert(piece =~= open + seq![c]);
        lemma_spoken_add(chars.take(k - 1), seq![c]);
        lemma_spoken_add(open, seq![c]);
        assert(spoken(concat(done)) + spoken(open) + spoken(seq![c]) =~= spoken(concat(done)) + (
        spoken(open) + spoken(seq![c])));
        lemma_trimmed(piece);
        if cuts_after(chars, k - 1, method) && trimmed(piece).len() > 0 {
            if has_sound(trimmed(piece)) {
                lemma_concat_push(done, trimmed(piece));
                lemma_spoken_add(concat(done), trimmed(piece));
            } else {
                lemma_silent(trimmed(piece));
            }
            assert(spoken(concat(done)) + spoken(piece) + Seq::<char>::empty() =~= spoken(
                concat(done),
            ) + spoken(piece));
            assert(spoken(concat(done)) + Seq::<char>::empty() =~= spoken(concat(done)));
        }
    }
}

proof fn lemma_gather_keeps(sentences: Seq<Seq<char>>, k: nat, min: nat)
    requires
        k <= sentences.len(),
    ensures
        ({
            let (done, part) = gathered(sentences, k, min);
            spoken(concat(done)) + spoken(part) == spoken(concat(sentences.take(k as int)))
        }),
    decreases k,
{
    if k == 0 {
        assert(sentences.take(0) =~= Seq::empty());
        assert(spoken(Seq::empty()) + spoken(Seq::empty()) =~= Seq::<char>::empty());
    } else {
        lemma_gather_keeps(sentences, (k - 1) as nat, min);
        let (done, part) = gathered(sentences, (k - 1) as nat, min);
        let more = part + sentences[k - 1];
        assert(sentences.take(k as int) =~= sentences.take(k - 1).push(sentences[k - 1]));
        lemma_concat_push(sentences.take(k - 1), sentences[k - 1]);
        lemma_spoken_add(concat(sentences.take(k - 1)), sentences[k - 1]);
        lemma_spoken_add(part, sentences[k - 1]);
        assert(spoken(concat(done)) + spoken(part) + spoken(sentences[k - 1]) =~= spoken(
            concat(done),
        ) + (spoken(part) + spoken(sentences[k - 1])));
        if more.len() >= min {
            lemma_trimmed(more);
            lemma_concat_push(done, trimmed(more));
            lemma_spoken_add(concat(done), trimmed(more));
            assert(spoken(concat(done)) + spoken(more) + Seq::<char>::empty() =~= spoken(
                concat(done),
            ) + spoken(more));
        }
    }
}

/// What splitting adds to a text: a full stop where the text has none at its end.
spec fn added(chars: Seq<char>, language: Language, method: SplitMethod) -> Seq<char> {
    let open = trimmed(cut_upto(chars, chars.len(), method).1);
    if has_sound(open) && !delimiters(method).contains(open.last()) {
        seq![full_stop(language)]
    } else {
        Seq::empty()
    }
}

/// What is replaced by something as silent leaves the same to be spoken.
proof fn lemma_replaced_spoken(s: Seq<char>, pat: Seq<char>, with: Seq<char>)
    requires
        spoken(pat) == Seq::<char>::empty(),
        spoken(with) == Seq::<char>::empty(),
    ensures
        spoken(replaced(s, pat, with)) == spoken(s),
    decreases s.len(),
{
    if s.len() == 0 || pat.len() == 0 {
    } else if occurs_at(s, pat, 0) {
        let rest = s.skip(pat.len() as int);
        lemma_replaced_spoken(rest, pat, with);
        assert(s =~= pat + rest);
        lemma_spoken_add(pat, rest);
        lemma_spoken_add(with, replaced(rest, pat, with));
    } else {
        let rest = s.skip(1);
        lemma_replaced_spoken(rest, pat, with);
        assert(s =~= seq![s[0]] + rest);
        lemma_spoken_add(seq![s[0]], rest);
        lemma_spoken_add(seq![s[0]], replaced(rest, pat, with));
    }
}

/// Preparing a text keeps what is spoken.
proof fn lemma_prepared_spoken(text: Seq<char>, method: SplitMethod)
    ensures
        spoken(prepared(text, method)) == spoken(text),
{
    reveal_strlit("……");
    reveal_strlit("。");
    reveal_strlit("——");
    reveal_strlit("，");
    lemma_silent("……"@);
    lemma_silent("。"@);
    lemma_silent("——"@);
    lemma_silent("，"@);
    lemma_replaced_spoken(text, "……"@, "。"@);
    lemma_replaced_spoken(replaced(text, "……"@, "。"@), "——"@, "，"@);
}

/// Splitting keeps what is spoken: the letters and numbers of the chunks are those of the text, in
/// order.
pub proof fn splitting_keeps_spoken_text(
    text: Seq<char>,
    min: nat,
    language: Language,
    method: SplitMethod,
)
    ensures
        spoken(concat(text_chunks(text, min, language, method))) == spoken(text),
{
    lemma_prepared_spoken(text, method);
    lemma_silent(added(prepared(text, method), language, method));
    let chars = prepared(text, method);
    let all = sentences(chars, language, method);
    let extra = added(chars, language, method);
    let (done, open) = cut_upto(chars, chars.len(), method);
    lemma_cut_keeps(chars, chars.len(), method);
    assert(chars.take(chars.len() as int) =~= chars);
    lemma_trimmed(open);
    lemma_spoken_add(chars, extra);
    assert(spoken(chars) + Seq::<char>::empty() =~= spoken(chars));
    assert(spoken(concat(all)) == spoken(chars) + spoken(extra)) by {
        if has_sound(trimmed(open)) {
            let tail = closed(trimmed(open), language, method);
            lemma_concat_push(done, tail);
            lemma_spoken_add(concat(done), tail);
            assert(tail =~= trimmed(open) + extra);
            lemma_spoken_add(trimmed(open), extra);
            assert(spoken(concat(done)) + (spoken(open) + spoken(extra)) =~= spoken(concat(done))
                + spoken(open) + spoken(extra));
        } else {
            lemma_silent(trimmed(open));
            assert(spoken(concat(done)) + Seq::<char>::empty() =~= spoken(concat(done)));
            assert(spoken(chars) + Seq::<char>::empty() =~= spoken(chars));
        }
    }
    lemma_gather_keeps(all, all.len(), min);
    assert(all.take(all.len() as int) =~= all);
    let (chunked, part) = gathered(all, all.len(), min);
    lemma_trimmed(part);
    if trimmed(part).len() == 0 {
        assert(trimmed(part) =~= Seq::empty());
        assert(spoken(concat(chunked)) + Seq::<char>::empty() =~= spoken(concat(chunked)));
    } else if chunked.len() > 0 {
        let short = chunked.drop_last();
        assert(chunked =~= short.push(chunked.last()));
        let joined = chunked.update(chunked.len() - 1, chunked.last() + part);
        assert(joined =~= short.push(chunked.last() + part));
        lemma_concat_push(short, chunked.last());
        lemma_concat_push(short, chunked.last() + part);
        assert(concat(short) + (chunked.last() + part) =~= concat(chunked) + part);
        lemma_spoken_add(concat(chunked), part);
    } else {
        lemma_concat_push(Seq::empty(), trimmed(part));
        assert(Seq::<Seq<char>>::empty().push(trimmed(part)) =~= seq![trimmed(part)]);
        assert(concat(Seq::empty()) + trimmed(part) =~= trimmed(part));
        assert(concat(chunked) =~= Seq::empty());
        assert(spoken(Seq::empty()) + spoken(part) =~= spoken(part));
    }
}

proof fn lemma_gather_long(sentences: Seq<Seq<char>>, k: nat, min: nat)
    requires
        k <= sentences.len(),
        forall|i: int| 0 <= i < k ==> is_tight(#[trigger] sentences[i]),
    ensures
        ({
            let (done, part) = gathered(sentences, k, min);
            &&& forall|i: int| 0 <= i < done.len() ==> (#[trigger] done[i]).len() >= min
            &&& part.len() == 0 || is_tight(part)
        }),
    decreases k,
{
    if k > 0 {
        lemma_gather_long(sentences, (k - 1) as nat, min);
        let (done, part) = gathered(sentences, (k - 1) as nat, min);
        let more = part + sentences[k - 1];
        assert(is_tight(sentences[k - 1]));
        assert(more.last() == sentences[k - 1].last());
        assert(more[0] == if part.len() > 0 {
            part[0]
        } else {
            sentences[k - 1][0]
        });
        assert(is_tight(more));
        lemma_tight_stays(more);
    }
}

/// No sentence is empty or has white space at its ends.
proof fn lemma_sentences_tight(chars: Seq<char>, language: Language, method: SplitMethod)
    ensures
        forall|i: int|
            0 <= i < sentences(chars, language, method).len() ==> is_tight(
                #[trigger] sentences(chars, language, method)[i],
            ),
{
    let (done, open) = cut_upto(chars, chars.len(), method);
    lemma_cut_keeps(chars, chars.len(), method);
    lemma_trimmed(open);
    let all = sentences(chars, language, method);
    assert forall|i: int| 0 <= i < all.len() implies is_tight(#[trigger] all[i]) by {
        if i < done.len() {
            assert(all[i] == done[i]);
        } else {
            let tail = trimmed(open);
            assert(tail.len() > 0);
            assert(closed(tail, language, method)[0] == tail[0]);
        }
    }
}

/// Whether a text has no white space at its ends, holds a letter or a number and, where `closes`,
/// ends with a delimiter.
spec fn is_whole(s: Seq<char>, method: SplitMethod, closes: bool) -> bool {
    &&& is_tight(s)
    &&& has_sound(s)
    &&& closes ==> delimiters(method).contains(s.last())
}

proof fn lemma_whole_joined(a: Seq<char>, b: Seq<char>, method: SplitMethod, closes: bool)
    requires
        a.len() == 0 || is_tight(a),
        is_whole(b, method, closes),
    ensures
        is_whole(a + b, method, closes),
{
    let s = a + b;
    assert(s.last() == b.last());
    assert(s[0] == if a.len() > 0 {
        a[0]
    } else {
        b[0]
    });
    let i = choose|i: int| 0 <= i < b.len() && is_letter_or_number(#[trigger] b[i]);
    assert(s[a.len() + i] == b[i]);
}

/// A delimiter is white space only where it is a line break.
proof fn lemma_delimiter_shows(c: char, method: SplitMethod)
    requires
        delimiters(method).contains(c),
        c != '\n',
    ensures
        !is_space(c),
{
    reveal_strlit(".?!。？！…\n");
    reveal_strlit(",.;?!、，。？！；：:…\n");
}

proof fn lemma_full_stop_closes(language: Language, method: SplitMethod)
    ensures
        delimiters(method).contains(full_stop(language)),
        !is_space(full_stop(language)),
{
    reveal_strlit(".?!。？！…\n");
    reveal_strlit(",.;?!、，。？！；：:…\n");
    match method {
        SplitMethod::Sentence => {
            assert(delimiters(method)[0] == '.');
            assert(delimiters(method)[3] == '。');
        },
        SplitMethod::Cut5 => {
            assert(delimiters(method)[1] == '.');
            assert(delimiters(method)[7] == '。');
        },
    }
}

proof fn lemma_cut_whole(chars: Seq<char>, k: nat, method: SplitMethod, closes: bool)
    requires
        k <= chars.len(),
        closes ==> !chars.contains('\n'),
    ensures
        forall|i: int|
            0 <= i < cut_upto(chars, k, method).0.len() ==> is_whole(
                #[trigger] cut_upto(chars, k, method).0[i],
                method,
                closes,
            ),
    decreases k,
{
    if k > 0 {
        lemma_cut_whole(chars, (k - 1) as nat, method, closes);
        let (done, open) = cut_upto(chars, (k - 1) as nat, method);
        let c = chars[k - 1];
        let piece = open.push(c);
        lemma_trimmed(piece);
        if cuts_after(chars, k - 1, method) && has_sound(trimmed(piece)) && closes {
            assert(chars.contains(c));
            lemma_delimiter_shows(c, method);
            lemma_trimmed_start(piece);
            assert(piece.last() == c);
            assert(trimmed(piece).last() == c);
        }
    }
}

proof fn lemma_sentences_whole(
    chars: Seq<char>,
    language: Language,
    method: SplitMethod,
    closes: bool,
)
    requires
        closes ==> !chars.contains('\n'),
    ensures
        forall|i: int|
            0 <= i < sentences(chars, language, method).len() ==> is_whole(
                #[trigger] sentences(chars, language, method)[i],
                method,
                closes,
            ),
{
    let (done, open) = cut_upto(chars, chars.len(), method);
    lemma_cut_whole(chars, chars.len(), method, closes);
    lemma_sentences_tight(chars, language, method);
    lemma_full_stop_closes(language, method);
    let all = sentences(chars, language, method);
    assert forall|i: int| 0 <= i < all.len() implies is_whole(#[trigger] all[i], method, closes) by {
        if i < done.len() {
            assert(all[i] == done[i]);
        } else {
            let tail = trimmed(open);
            let j = choose|j: int| 0 <= j < tail.len() && is_letter_or_number(#[trigger] tail[j]);
            assert(closed(tail, language, method)[j] == tail[j]);
        }
    }
}

proof fn lemma_gather_whole(
    sentences: Seq<Seq<char>>,
    k: nat,
    min: nat,
    method: SplitMethod,
    closes: bool,
)
    requires
        k <= sentences.len(),
        forall|i: int| 0 <= i < k ==> is_whole(#[trigger] sentences[i], method, closes),
    ensures
        ({
            let (done, part) = gathered(sentences, k, min);
            &&& forall|i: int| 0 <= i < done.len() ==> is_whole(#[trigger] done[i], method, closes)
            &&& part.len() == 0 || is_whole(part, method, closes)
        }),
    decreases k,
{
    if k > 0 {
        lemma_gather_whole(sentences, (k - 1) as nat, min, method, closes);
        let (done, part) = gathered(sentences, (k - 1) as nat, min);
        let more = part + sentences[k - 1];
        assert(is_whole(sentences[k - 1], method, closes));
        lemma_whole_joined(part, sentences[k - 1], method, closes);
        lemma_tight_stays(more);
    }
}

proof fn lemma_chunks_whole(
    chars: Seq<char>,
    min: nat,
    language: Language,
    method: SplitMethod,
    closes: bool,
)
    requires
        closes ==> !chars.contains('\n'),
    ensures
        ({
            let all = chunks(sentences(chars, language, method), min);
            forall|i: int| 0 <= i < all.len() ==> is_whole(#[trigger] all[i], method, closes)
        }),
{
    let parts = sentences(chars, language, method);
    lemma_sentences_whole(chars, language, method, closes);
    lemma_gather_whole(parts, parts.len(), min, method, closes);
    let (done, part) = gathered(parts, parts.len(), min);
    if part.len() > 0 {
        lemma_tight_stays(part);
        if done.len() > 0 {
            assert(is_whole(done[done.len() - 1], method, closes));
            lemma_whole_joined(done.last(), part, method, closes);
        }
    } else {
        assert(trimmed(part).len() == 0);
    }
}

/// Replacing brings in no character that neither the text nor the replacement has.
proof fn lemma_replaced_lacks(s: Seq<char>, pat: Seq<char>, with: Seq<char>, c: char)
    requires
        !s.contains(c),
        !with.contains(c),
    ensures
        !replaced(s, pat, with).contains(c),
    decreases s.len(),
{
    if s.len() == 0 || pat.len() == 0 {
    } else {
        let hit = occurs_at(s, pat, 0);
        let head = if hit {
            with
        } else {
            seq![s[0]]
        };
        let rest = if hit {
            s.skip(pat.len() as int)
        } else {
            s.skip(1)
        };
        assert(s.contains(s[0]));
        assert(!rest.contains(c)) by {
            if rest.contains(c) {
                let i = choose|i: int| 0 <= i < rest.len() && rest[i] == c;
                assert(s[i + s.len() - rest.len()] == c);
            }
        }
        lemma_replaced_lacks(rest, pat, with, c);
        let tail = replaced(rest, pat, with);
        if (head + tail).contains(c) {
            let i = choose|i: int| 0 <= i < (head + tail).len() && (head + tail)[i] == c;
            if i < head.len() {
                assert(head[i] == c);
            } else {
                assert(tail[i - head.len()] == c);
            }
        }
    }
}

/// No chunk has white space at its ends, and each holds a letter or a number.
pub proof fn chunks_can_be_spoken(text: Seq<char>, min: nat, language: Language, method: SplitMethod)
    ensures
        ({
            let all = text_chunks(text, min, language, method);
            forall|i: int|
                0 <= i < all.len() ==> is_tight(#[trigger] all[i]) && has_sound(all[i])
        }),
{
    let all = text_chunks(text, min, language, method);
    lemma_chunks_whole(prepared(text, method), min, language, method, false);
    assert forall|i: int| 0 <= i < all.len() implies is_tight(#[trigger] all[i]) && has_sound(
        all[i],
    ) by {
        assert(is_whole(all[i], method, false));
    }
}

/// Each chunk of a text without line breaks ends with a delimiter.
pub proof fn chunks_end_with_a_delimiter(
    text: Seq<char>,
    min: nat,
    language: Language,
    method: SplitMethod,
)
    requires
        !text.contains('\n'),
    ensures
        ({
            let all = text_chunks(text, min, language, method);
            forall|i: int|
                0 <= i < all.len() ==> delimiters(method).contains((#[trigger] all[i]).last())
        }),
{
    reveal_strlit("。");
    reveal_strlit("，");
    lemma_replaced_lacks(text, "……"@, "。"@, '\n');
    lemma_replaced_lacks(replaced(text, "……"@, "。"@), "——"@, "，"@, '\n');
    let all = text_chunks(text, min, language, method);
    lemma_chunks_whole(prepared(text, method), min, language, method, true);
    assert forall|i: int| 0 <= i < all.len() implies delimiters(method).contains(
        (#[trigger] all[i]).last(),
    ) by {
        assert(is_whole(all[i], method, true));
    }
}

/// Where a text is split into two chunks or more, none is shorter than asked.
pub proof fn chunks_are_long_enough(
    text: Seq<char>,
    min: nat,
    language: Language,
    method: SplitMethod,
)
    ensures
        ({
            let all = text_chunks(text, min, language, method);
            all.len() >= 2 ==> forall|i: int|
                0 <= i < all.len() ==> (#[trigger] all[i]).len() >= min
        }),
{
    let all = sentences(prepared(text, method), language, method);
    lemma_sentences_tight(prepared(text, method), language, method);
    lemma_gather_long(all, all.len(), min);
    let (done, part) = gathered(all, all.len(), min);
    let result = text_chunks(text, min, language, method);
    if result.len() >= 2 {
        assert forall|i: int| 0 <= i < result.len() implies (#[trigger] result[i]).len() >= min by {
            assert(done[i].len() >= min);
        }
    }
}

/// The marks behind which a text is cut.
pub open spec fn is_cut_mark(c: char, method: SplitMethod) -> bool {
    ||| c == '.' || c == '?' || c == '!' || c == '。' || c == '？' || c == '！' || c == '…' || c
        == '\n'
    ||| method is Cut5 && (c == ',' || c == ';' || c == ':' || c == '，' || c == '；' || c == '：'
        || c == '、')
}

/// Whether a character is a point between two digits.
pub open spec fn is_decimal_point(s: Seq<char>, i: int) -> bool {
    &&& s[i] == '.'
    &&& 0 < i < s.len() - 1
    &&& '0' <= s[i - 1] <= '9'
    &&& '0' <= s[i + 1] <= '9'
}

/// The delimiters of a method are its marks.
pub proof fn delimiters_are_the_marks(c: char, method: SplitMethod)
    ensures
        delimiters(method).contains(c) == is_cut_mark(c, method),
{
    reveal_strlit(".?!。？！…\n");
    reveal_strlit(",.;?!、，。？！；：:…\n");
    let all = delimiters(method);
    match method {
        SplitMethod::Sentence => {
            assert(all[0] == '.' && all[1] == '?' && all[2] == '!' && all[3] == '。' && all[4]
                == '？' && all[5] == '！' && all[6] == '…' && all[7] == '\n');
        },
        SplitMethod::Cut5 => {
            assert(all[0] == ',' && all[1] == '.' && all[2] == ';' && all[3] == '?' && all[4]
                == '!' && all[5] == '、' && all[6] == '，' && all[7] == '。' && all[8] == '？'
                && all[9] == '！' && all[10] == '；' && all[11] == '：' && all[12] == ':'
                && all[13] == '…' && all[14] == '\n');
        },
    }
}

/// Where a text stands that was trimmed: behind white space, and with white space behind it.
proof fn lemma_trimmed_place(s: Seq<char>) -> (from: int)
    ensures
        0 <= from <= from + trimmed(s).len() <= s.len(),
        trimmed(s) == s.subrange(from, from + trimmed(s).len()),
        forall|i: int| 0 <= i < from ==> is_space(#[trigger] s[i]),
        forall|i: int| from + trimmed(s).len() <= i < s.len() ==> is_space(#[trigger] s[i]),
    decreases s.len(),
{
    if s.len() > 0 && is_space(s[0]) {
        let from = lemma_trimmed_place(s.skip(1));
        assert(trimmed(s) == trimmed(s.skip(1)));
        assert(s.subrange(from + 1, from + 1 + trimmed(s).len()) =~= s.skip(1).subrange(
            from,
            from + trimmed(s).len(),
        ));
        assert forall|i: int| 0 <= i < from + 1 implies is_space(#[trigger] s[i]) by {
            if i > 0 {
                assert(s.skip(1)[i - 1] == s[i]);
            }
        }
        assert forall|i: int| from + 1 + trimmed(s).len() <= i < s.len() implies is_space(
            #[trigger] s[i],
        ) by {
            assert(s.skip(1)[i - 1] == s[i]);
        }
        from + 1
    } else {
        lemma_trimmed_end_place(s);
        assert(trimmed(s) == trimmed_end(s));
        assert(s.take(trimmed(s).len() as int) =~= s.subrange(0, trimmed(s).len() as int));
        0
    }
}

proof fn lemma_trimmed_end_place(s: Seq<char>)
    ensures
        trimmed_end(s).len() <= s.len(),
        trimmed_end(s) == s.take(trimmed_end(s).len() as int),
        forall|i: int| trimmed_end(s).len() <= i < s.len() ==> is_space(#[trigger] s[i]),
    decreases s.len(),
{
    if s.len() > 0 && is_space(s.last()) {
        let rest = s.drop_last();
        lemma_trimmed_end_place(rest);
        assert(rest.take(trimmed_end(s).len() as int) =~= s.take(trimmed_end(s).len() as int));
        assert forall|i: int| trimmed_end(s).len() <= i < s.len() implies is_space(
            #[trigger] s[i],
        ) by {
            if i < rest.len() {
                assert(rest[i] == s[i]);
            }
        }
    } else {
        assert(s.take(s.len() as int) =~= s);
    }
}

/// Whether no mark stands inside a text, save points between digits.
spec fn is_uncut(s: Seq<char>, method: SplitMethod) -> bool {
    forall|i: int|
        0 <= i < s.len() - 1 && is_cut_mark(#[trigger] s[i], method) ==> is_decimal_point(s, i)
}

/// Whether a text comes from the characters between two places of another, the second of which is
/// behind a mark.
spec fn comes_from(
    s: Seq<char>,
    chars: Seq<char>,
    from: int,
    to: int,
    method: SplitMethod,
) -> bool {
    &&& 0 <= from < to <= chars.len()
    &&& s == trimmed(chars.subrange(from, to))
    &&& is_cut_mark(chars[to - 1], method)
}

/// Whether a text is cut out of another behind a mark.
spec fn is_cut_out(s: Seq<char>, chars: Seq<char>, method: SplitMethod) -> bool {
    exists|from: int, to: int| comes_from(s, chars, from, to, method)
}

/// Whether the characters from `from` up to, but without, `to` are open: a mark among them is a
/// point between digits, or stands with white space only before it, and a mark is before them.
spec fn is_open(chars: Seq<char>, from: int, to: int, method: SplitMethod) -> bool {
    &&& 0 <= from <= to <= chars.len()
    &&& from > 0 ==> is_cut_mark(chars[from - 1], method)
    &&& forall|j: int|
        from <= j < to && is_cut_mark(#[trigger] chars[j], method) ==> is_decimal_point(chars, j)
            || (forall|l: int| from <= l <= j ==> is_space(#[trigger] chars[l]))
}

/// A trimmed piece whose characters but the last are open holds no mark inside.
proof fn lemma_piece_uncut(chars: Seq<char>, from: int, to: int, method: SplitMethod)
    requires
        0 <= from < to <= chars.len(),
        is_open(chars, from, to - 1, method),
    ensures
        is_uncut(trimmed(chars.subrange(from, to)), method),
{
    let piece = chars.subrange(from, to);
    let t = trimmed(piece);
    lemma_trimmed(piece);
    let a = lemma_trimmed_place(piece);
    assert forall|i: int| 0 <= i < t.len() - 1 && is_cut_mark(
        #[trigger] t[i],
        method,
    ) implies is_decimal_point(t, i) by {
        let j = from + a + i;
        assert(t[i] == chars[j]);
        assert(t[0] == chars[from + a]);
        assert(t[i + 1] == chars[j + 1]);
        if !is_decimal_point(chars, j) {
            assert(is_space(chars[from + a]));
        }
        if i == 0 {
            if a > 0 {
                assert(is_space(piece[a - 1]));
            }
            assert(false);
        }
        assert(t[i - 1] == chars[j - 1]);
    }
}

proof fn lemma_cut_at_marks(chars: Seq<char>, k: nat, method: SplitMethod)
    requires
        k <= chars.len(),
    ensures
        ({
            let (done, open) = cut_upto(chars, k, method);
            &&& open.len() <= k
            &&& open == chars.subrange(k - open.len(), k as int)
            &&& is_open(chars, k - open.len(), k as int, method)
            &&& forall|i: int| 0 <= i < done.len() ==> is_uncut(#[trigger] done[i], method)
            &&& forall|i: int| 0 <= i < done.len() ==> is_cut_out(#[trigger] done[i], chars, method)
        }),
    decreases k,
{
    if k == 0 {
        assert(chars.subrange(0, 0) =~= Seq::empty());
    } else {
        lemma_cut_at_marks(chars, (k - 1) as nat, method);
        let (done, open) = cut_upto(chars, (k - 1) as nat, method);
        let from = k - 1 - open.len();
        let c = chars[k - 1];
        let piece = open.push(c);
        delimiters_are_the_marks(c, method);
        assert(piece =~= chars.subrange(from, k as int));
        let (now, rest) = cut_upto(chars, k, method);
        if cuts_after(chars, k - 1, method) && trimmed(piece).len() > 0 {
            assert(rest =~= chars.subrange(k as int, k as int));
            assert(is_open(chars, k as int, k as int, method));
            if has_sound(trimmed(piece)) {
                lemma_piece_uncut(chars, from, k as int, method);
                assert(comes_from(trimmed(piece), chars, from, k as int, method));
                assert forall|i: int| 0 <= i < now.len() implies is_uncut(
                    #[trigger] now[i],
                    method,
                ) by {
                    if i < done.len() {
                        assert(now[i] == done[i]);
                    }
                }
                assert forall|i: int| 0 <= i < now.len() implies is_cut_out(
                    #[trigger] now[i],
                    chars,
                    method,
                ) by {
                    if i < done.len() {
                        assert(now[i] == done[i]);
                    }
                }
            }
        } else {
            assert(k - rest.len() == from);
            assert forall|j: int| from <= j < k && is_cut_mark(
                #[trigger] chars[j],
                method,
            ) implies is_decimal_point(chars, j) || (forall|l: int|
                from <= l <= j ==> is_space(#[trigger] chars[l])) by {
                if j == k - 1 && !is_decimal_point(chars, j) {
                    assert(cuts_after(chars, k - 1, method));
                    let a = lemma_trimmed_place(piece);
                    assert forall|l: int| from <= l <= j implies is_space(#[trigger] chars[l]) by {
                        assert(piece[l - from] == chars[l]);
                    }
                }
            }
            assert(rest == piece);
            assert(is_open(chars, from, k as int, method));
        }
    }
}

/// Whether a text is one of the pieces that another is cut into at its marks: the characters
/// between two places, the second behind a mark, or those from a place to the end, closed with a
/// full stop where no mark ends them; white space at the ends is left out.
pub open spec fn is_piece_of(
    s: Seq<char>,
    chars: Seq<char>,
    from: int,
    to: int,
    language: Language,
    method: SplitMethod,
) -> bool {
    let t = trimmed(chars.subrange(from, to));
    &&& 0 <= from < to <= chars.len()
    &&& {
        ||| s == t && is_cut_mark(chars[to - 1], method)
        ||| to == chars.len() && s == t.push(
            if language == Language::English {
                '.'
            } else {
                '。'
            },
        )
    }
}

proof fn lemma_sentences_at_marks(chars: Seq<char>, language: Language, method: SplitMethod, i: int)
    requires
        0 <= i < sentences(chars, language, method).len(),
    ensures
        is_uncut(sentences(chars, language, method)[i], method),
        exists|from: int, to: int|
            is_piece_of(sentences(chars, language, method)[i], chars, from, to, language, method),
{
    let (done, open) = cut_upto(chars, chars.len(), method);
    lemma_cut_at_marks(chars, chars.len(), method);
    let s = sentences(chars, language, method)[i];
    if i < done.len() {
        assert(s == done[i]);
        assert(is_cut_out(done[i], chars, method));
        let (from, to) = choose|from: int, to: int| comes_from(s, chars, from, to, method);
        assert(is_piece_of(s, chars, from, to, language, method));
    } else {
        let n = chars.len() as int;
        let from = n - open.len();
        let t = trimmed(open);
        let j = choose|j: int| 0 <= j < t.len() && is_letter_or_number(#[trigger] t[j]);
        assert(open.len() > 0) by {
            let a = lemma_trimmed_place(open);
        }
        assert(is_open(chars, from, n - 1, method));
        lemma_piece_uncut(chars, from, n, method);
        delimiters_are_the_marks(t.last(), method);
        let a = lemma_trimmed_place(open);
        lemma_trimmed(open);
        if is_cut_mark(t.last(), method) {
            let at = from + a + t.len() - 1;
            assert(t.last() == chars[at]);
            assert(t[0] == chars[from + a]);
            if is_decimal_point(chars, at) {
                if a + t.len() < open.len() {
                    assert(is_space(open[a + t.len()]));
                    assert(open[a + t.len()] == chars[at + 1]);
                }
                assert(at + 1 == n);
            }
            assert(false);
        }
        assert(s == t.push(full_stop(language)));
        assert(is_piece_of(s, chars, from, n, language, method));
        assert forall|l: int| 0 <= l < s.len() - 1 && is_cut_mark(
            #[trigger] s[l],
            method,
        ) implies is_decimal_point(s, l) by {
            assert(s[l] == t[l]);
            if l < t.len() - 1 {
                assert(is_decimal_point(t, l));
            }
        }
    }
}

/// Whether a mark inside a text has fewer than `min` characters up to it.
spec fn is_cut_early(s: Seq<char>, min: nat, method: SplitMethod) -> bool {
    forall|i: int|
        0 <= i < s.len() - 1 && is_cut_mark(#[trigger] s[i], method) && !is_decimal_point(s, i)
            ==> i + 1 < min
}

proof fn lemma_gather_at_marks(parts: Seq<Seq<char>>, k: nat, min: nat, method: SplitMethod)
    requires
        k <= parts.len(),
        forall|i: int|
            0 <= i < parts.len() ==> is_tight(#[trigger] parts[i]) && is_uncut(parts[i], method),
    ensures
        ({
            let (done, part) = gathered(parts, k, min);
            &&& part.len() == 0 || (is_tight(part) && part.len() < min)
            &&& concat(done) + part == concat(parts.take(k as int))
            &&& forall|i: int| 0 <= i < done.len() ==> is_cut_early(#[trigger] done[i], min, method)
        }),
    decreases k,
{
    if k == 0 {
        assert(parts.take(0) =~= Seq::empty());
        assert(concat(Seq::empty()) + Seq::<char>::empty() =~= Seq::<char>::empty());
    } else {
        lemma_gather_at_marks(parts, (k - 1) as nat, min, method);
        let (done, part) = gathered(parts, (k - 1) as nat, min);
        let s = parts[k - 1];
        let more = part + s;
        assert(is_tight(s) && is_uncut(s, method));
        assert(more.last() == s.last());
        assert(more[0] == if part.len() > 0 {
            part[0]
        } else {
            s[0]
        });
        lemma_tight_stays(more);
        assert(parts.take(k as int) =~= parts.take(k - 1).push(s));
        lemma_concat_push(parts.take(k - 1), s);
        assert(concat(done) + part + s =~= concat(done) + more);
        if more.len() >= min {
            lemma_concat_push(done, more);
            assert(concat(done) + more + Seq::<char>::empty() =~= concat(done) + more);
            assert forall|i: int| 0 <= i < more.len() - 1 && is_cut_mark(
                #[trigger] more[i],
                method,
            ) && !is_decimal_point(more, i) implies i + 1 < min by {
                if i >= part.len() {
                    let l = i - part.len();
                    assert(more[i] == s[l]);
                    assert(is_decimal_point(s, l));
                    assert(more[i - 1] == s[l - 1] && more[i + 1] == s[l + 1]);
                }
            }
            let now = gathered(parts, k, min).0;
            assert forall|i: int| 0 <= i < now.len() implies is_cut_early(
                #[trigger] now[i],
                min,
                method,
            ) by {
                if i < done.len() {
                    assert(now[i] == done[i]);
                }
            }
        }
    }
}

/// A text is cut after each of its marks once enough characters are gathered: up to a mark inside
/// a chunk, save a point between digits, there are fewer than `min` characters, or the chunk is
/// the last and fewer than `min` characters follow. With a minimum of one no mark is left inside
/// a chunk.
pub proof fn chunks_are_cut_at_every_mark(
    text: Seq<char>,
    min: nat,
    language: Language,
    method: SplitMethod,
    n: int,
    i: int,
)
    requires
        0 <= n < text_chunks(text, min, language, method).len(),
        0 <= i < text_chunks(text, min, language, method)[n].len() - 1,
        is_cut_mark(text_chunks(text, min, language, method)[n][i], method),
        !is_decimal_point(text_chunks(text, min, language, method)[n], i),
    ensures
        ({
            let all = text_chunks(text, min, language, method);
            i + 1 < min || (n == all.len() - 1 && all[n].len() - (i + 1) < min)
        }),
{
    let chars = prepared(text, method);
    let parts = sentences(chars, language, method);
    lemma_sentences_tight(chars, language, method);
    assert forall|k: int| 0 <= k < parts.len() implies is_tight(#[trigger] parts[k]) && is_uncut(
        parts[k],
        method,
    ) by {
        lemma_sentences_at_marks(chars, language, method, k);
    }
    lemma_gather_at_marks(parts, parts.len(), min, method);
    let (done, part) = gathered(parts, parts.len(), min);
    let all = text_chunks(text, min, language, method);
    let s = all[n];
    if part.len() > 0 {
        lemma_tight_stays(part);
        if done.len() > 0 && n == done.len() - 1 {
            let d = done[n];
            assert(s == d + part);
            if i < d.len() - 1 {
                assert(s[i] == d[i] && s[i + 1] == d[i + 1]);
                if is_decimal_point(d, i) {
                    assert(s[i - 1] == d[i - 1]);
                }
                assert(is_cut_early(d, min, method));
            }
        } else if done.len() > 0 {
            assert(s == done[n]);
        }
    } else {
        assert(trimmed(part).len() == 0);
        assert(s == done[n]);
    }
}

/// The minimum decides only which neighbours go together: whatever it is, the chunks hold the same
/// text.
pub proof fn the_minimum_only_joins_chunks(
    text: Seq<char>,
    min: nat,
    other: nat,
    language: Language,
    method: SplitMethod,
)
    ensures
        concat(text_chunks(text, min, language, method)) == concat(
            text_chunks(text, other, language, method),
        ),
{
    lemma_chunks_concat(prepared(text, method), min, language, method);
    lemma_chunks_concat(prepared(text, method), other, language, method);
}

proof fn lemma_chunks_concat(chars: Seq<char>, min: nat, language: Language, method: SplitMethod)
    ensures
        concat(chunks(sentences(chars, language, method), min)) == concat(
            sentences(chars, language, method),
        ),
{
    let parts = sentences(chars, language, method);
    lemma_sentences_tight(chars, language, method);
    assert forall|k: int| 0 <= k < parts.len() implies is_tight(#[trigger] parts[k]) && is_uncut(
        parts[k],
        method,
    ) by {
        lemma_sentences_at_marks(chars, language, method, k);
    }
    lemma_gather_at_marks(parts, parts.len(), min, method);
    assert(parts.take(parts.len() as int) =~= parts);
    let (done, part) = gathered(parts, parts.len(), min);
    if part.len() == 0 {
        assert(trimmed(part).len() == 0);
        assert(concat(done) + part =~= concat(done));
    } else {
        lemma_tight_stays(part);
        if done.len() > 0 {
            let short = done.drop_last();
            assert(done =~= short.push(done.last()));
            lemma_concat_push(short, done.last());
            lemma_concat_push(short, done.last() + part);
            assert(done.update(done.len() - 1, done.last() + part) =~= short.push(
                done.last() + part,
            ));
            assert(concat(short) + (done.last() + part) =~= concat(done) + part);
        } else {
            assert(done =~= Seq::empty());
            lemma_concat_push(Seq::empty(), part);
            assert(Seq::<Seq<char>>::empty().push(part) =~= seq![part]);
            assert(concat(done) + part =~= part);
        }
    }
}

proof fn lemma_one_is_enough(parts: Seq<Seq<char>>, k: nat, min: nat)
    requires
        k <= parts.len(),
        min <= 1,
        forall|i: int| 0 <= i < parts.len() ==> is_tight(#[trigger] parts[i]),
    ensures
        gathered(parts, k, min) == (parts.take(k as int), Seq::<char>::empty()),
    decreases k,
{
    if k == 0 {
        assert(parts.take(0) =~= Seq::empty());
    } else {
        lemma_one_is_enough(parts, (k - 1) as nat, min);
        let s = parts[k - 1];
        assert(is_tight(s));
        assert(Seq::<char>::empty() + s =~= s);
        lemma_tight_stays(s);
        assert(parts.take(k as int) =~= parts.take(k - 1).push(s));
    }
}

/// With a minimum of one, each chunk is a piece of the text that ends behind a mark or at the end
/// of the text: a text is cut nowhere else, and nothing inside a piece is changed.
pub proof fn chunks_are_pieces_of_the_text(
    text: Seq<char>,
    min: nat,
    language: Language,
    method: SplitMethod,
    n: int,
)
    requires
        min <= 1,
        0 <= n < text_chunks(text, min, language, method).len(),
    ensures
        exists|from: int, to: int|
            is_piece_of(
                text_chunks(text, min, language, method)[n],
                prepared(text, method),
                from,
                to,
                language,
                method,
            ),
{
    let chars = prepared(text, method);
    let parts = sentences(chars, language, method);
    lemma_sentences_tight(chars, language, method);
    lemma_one_is_enough(parts, parts.len(), min);
    assert(parts.take(parts.len() as int) =~= parts);
    assert(trimmed(Seq::<char>::empty()).len() == 0);
    lemma_sentences_at_marks(chars, language, method, n);
}

/// Characters that a pattern does not begin with stay before what is replaced.
proof fn lemma_replaced_behind(a: Seq<char>, s: Seq<char>, pat: Seq<char>, with: Seq<char>)
    requires
        pat.len() > 0,
        !a.contains(pat[0]),
    ensures
        replaced(a + s, pat, with) == a + replaced(s, pat, with),
    decreases a.len(),
{
    if a.len() == 0 {
        assert(a + s =~= s);
        assert(a + replaced(s, pat, with) =~= replaced(s, pat, with));
    } else {
        let t = a + s;
        assert(a.contains(a[0]));
        assert(!occurs_at(t, pat, 0)) by {
            if occurs_at(t, pat, 0) {
                assert(t.subrange(0, pat.len() as int)[0] == pat[0]);
            }
        }
        assert(!a.skip(1).contains(pat[0])) by {
            if a.skip(1).contains(pat[0]) {
                let i = choose|i: int| 0 <= i < a.skip(1).len() && a.skip(1)[i] == pat[0];
                assert(a[i + 1] == pat[0]);
            }
        }
        lemma_replaced_behind(a.skip(1), s, pat, with);
        assert(t.skip(1) =~= a.skip(1) + s);
        assert(seq![a[0]] + (a.skip(1) + replaced(s, pat, with)) =~= a + replaced(s, pat, with));
    }
}

/// A text is cut as it stands, but for what the finer method reads otherwise: an ellipsis of two
/// marks as a full stop, and a dash of two marks as a comma.
pub proof fn only_ellipses_and_dashes_are_read_otherwise(a: Seq<char>, b: Seq<char>)
    requires
        !a.contains('…'),
        !a.contains('—'),
    ensures
        prepared(b, SplitMethod::Sentence) == b,
        prepared(a + b, SplitMethod::Cut5) == a + prepared(b, SplitMethod::Cut5),
        prepared(seq!['…', '…'] + b, SplitMethod::Cut5) == seq!['。'] + prepared(
            b,
            SplitMethod::Cut5,
        ),
        b.len() > 0 && b[0] != '—' && b[0] != '…' ==> prepared(
            seq!['—', '—'] + b,
            SplitMethod::Cut5,
        ) == seq!['，'] + prepared(b, SplitMethod::Cut5),
        prepared(a, SplitMethod::Cut5) == a,
{
    reveal_strlit("……");
    reveal_strlit("。");
    reveal_strlit("——");
    reveal_strlit("，");
    let dots = "……"@;
    let dash = "——"@;
    assert(dots =~= seq!['…', '…'] && dash =~= seq!['—', '—']);
    assert("。"@ =~= seq!['。'] && "，"@ =~= seq!['，']);
    lemma_replaced_behind(a, b, dots, "。"@);
    lemma_replaced_behind(a, replaced(b, dots, "。"@), dash, "，"@);
    let two = dots + b;
    assert(two.subrange(0, 2) =~= dots);
    assert(two.skip(2) =~= b);
    lemma_replaced_behind("。"@, replaced(b, dots, "。"@), dash, "，"@);
    let line = dash + b;
    if b.len() > 0 && b[0] != '—' && b[0] != '…' {
        assert(!dash.contains('…'));
        lemma_replaced_behind(dash, b, dots, "。"@);
        let rest = replaced(b, dots, "。"@);
        let read = dash + rest;
        assert(read.subrange(0, 2) =~= dash);
        assert(read.skip(2) =~= rest);
    }
    let none = Seq::<char>::empty();
    lemma_replaced_behind(a, none, dots, "。"@);
    lemma_replaced_behind(a, none, dash, "，"@);
    assert(a + none =~= a);
}

/// The methods of splitting by their names, and nothing else is one.
pub proof fn methods_go_by_their_names(name: Seq<char>)
    ensures
        method_named(name) == Some(SplitMethod::Sentence) <==> name == seq![
            's',
            'e',
            'n',
            't',
            'e',
            'n',
            'c',
            'e',
        ],
        method_named(name) == Some(SplitMethod::Cut5) <==> name == seq!['c', 'u', 't', '5'],
        method_named(name) is Some ==> name.len() == 8 || name.len() == 4,
{
    reveal_strlit("sentence");
    reveal_strlit("cut5");
    assert("sentence"@ =~= seq!['s', 'e', 'n', 't', 'e', 'n', 'c', 'e']);
    assert("cut5"@ =~= seq!['c', 'u', 't', '5']);
    assert("sentence"@.len() == 8 && "cut5"@.len() == 4);
}

} // verus!
