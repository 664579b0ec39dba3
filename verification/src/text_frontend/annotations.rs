//! Pinyin annotations: a reading in square brackets behind a Chinese character.

use crate::strings::{
    chars_of, digit, is_digit, lemma_prefix_ends, prefix_len, string_between, string_of_char,
};
use crate::text_frontend::g2p::{given_view, is_ideograph, PinyinOverride};
use crate::Error;
use vstd::prelude::*;

verus! {

/// Whether a bracketed text is meant as a pinyin annotation: it ends in a digit.
pub open spec fn is_annotation(marker: Seq<char>) -> bool {
    marker.len() > 0 && is_digit(marker.last())
}

/// The reading that an annotation gives: a syllable and a tone from 1 to 5, or what is wrong
/// with it.
pub open spec fn annotation(marker: Seq<char>) -> Result<(Seq<char>, u32), Seq<char>> {
    let base = marker.drop_last();
    if !('1' <= marker.last() <= '5') {
        Err("unsupported tone in pinyin annotation ["@ + marker + "]"@)
    } else if base.len() == 0 {
        Err("missing syllable in pinyin annotation ["@ + marker + "]"@)
    } else {
        Ok((base, (marker.last() as u32 - '0' as u32) as u32))
    }
}

/// A pinyin annotation of a text: the place of the annotated character in the text without
/// annotations, the character, and the reading.
pub struct RawPinyinOverride {
    pub clean_index: usize,
    pub ch: char,
    pub pinyin: PinyinOverride,
}

/// Annotations by their views.
pub open spec fn raw_view(raw: Seq<RawPinyinOverride>) -> Seq<(nat, char, (Seq<char>, u32))> {
    raw.map_values(
        |r: RawPinyinOverride| (r.clean_index as nat, r.ch, (r.pinyin.base@, r.pinyin.tone)),
    )
}

/// Where the annotation behind the first character of a text is closed, if there is one.
pub open spec fn closing(s: Seq<char>) -> Option<int> {
    if s.len() >= 2 && s[1] == '[' {
        let n = prefix_len(s.skip(2), |c: char| c != ']') as int;
        if n + 2 < s.len() && is_annotation(s.subrange(2, n + 2)) {
            Some(n + 2)
        } else {
            None
        }
    } else {
        None
    }
}

/// The text without its annotations and the annotations, counted from place `at`; or what is
/// wrong with the first wrong one.
pub open spec fn annotations(s: Seq<char>, at: nat) -> Result<
    (Seq<char>, Seq<(nat, char, (Seq<char>, u32))>),
    Seq<char>,
>
    decreases s.len(),
{
    if s.len() == 0 {
        Ok((Seq::empty(), Seq::empty()))
    } else {
        match closing(s) {
            Some(close) => {
                let marker = s.subrange(2, close);
                if !is_ideograph(s[0]) {
                    Err("pinyin annotation ["@ + marker + "] must follow a Chinese character"@)
                } else {
                    match annotation(marker) {
                        Err(e) => Err(e),
                        Ok(reading) => behind(
                            seq![s[0]],
                            seq![(at, s[0], reading)],
                            if 0 <= close < s.len() {
                                annotations(s.skip(close + 1), at + 1)
                            } else {
                                Ok((Seq::empty(), Seq::empty()))
                            },
                        ),
                    }
                }
            },
            None => behind(seq![s[0]], Seq::empty(), annotations(s.skip(1), at + 1)),
        }
    }
}

/// What was found, behind what was found before it.
pub open spec fn behind(
    clean: Seq<char>,
    found: Seq<(nat, char, (Seq<char>, u32))>,
    rest: Result<(Seq<char>, Seq<(nat, char, (Seq<char>, u32))>), Seq<char>>,
) -> Result<(Seq<char>, Seq<(nat, char, (Seq<char>, u32))>), Seq<char>> {
    match rest {
        Ok((more, others)) => Ok((clean + more, found + others)),
        Err(e) => Err(e),
    }
}

proof fn lemma_behind(
    clean: Seq<char>,
    found: Seq<(nat, char, (Seq<char>, u32))>,
    clean2: Seq<char>,
    found2: Seq<(nat, char, (Seq<char>, u32))>,
    rest: Result<(Seq<char>, Seq<(nat, char, (Seq<char>, u32))>), Seq<char>>,
)
    ensures
        behind(clean, found, behind(clean2, found2, rest)) == behind(
            clean + clean2,
            found + found2,
            rest,
        ),
{
    match rest {
        Ok((more, others)) => {
            assert(clean + (clean2 + more) =~= clean + clean2 + more);
            assert(found + (found2 + others) =~= found + found2 + others);
        },
        Err(e) => {},
    }
}

/// Whether a bracketed text is meant as a pinyin annotation.
pub fn is_pinyin_annotation_candidate(marker: &str) -> (r: bool)
    ensures
        r == is_annotation(marker@),
{
    let chars = chars_of(marker);
    chars.len() > 0 && digit(chars[chars.len() - 1])
}

/// Whether a character is a Chinese ideograph.
pub fn is_cjk(ch: char) -> (r: bool)
    ensures
        r == is_ideograph(ch),
{
    '\u{4E00}' <= ch && ch <= '\u{9FFF}'
}

/// A message around a quoted text.
fn quoted(before: &str, text: &str, after: &str) -> (r: String)
    ensures
        r@ == before@ + text@ + after@,
{
    let mut r = before.to_owned();
    r.push_str(text);
    r.push_str(after);
    r
}

/// The reading that an annotation gives.
pub fn parse_pinyin_override(marker: &str) -> (r: Result<PinyinOverride, Error>)
    requires
        is_annotation(marker@),
    ensures
        match r {
            Ok(p) => annotation(marker@) == Ok::<(Seq<char>, u32), Seq<char>>((p.base@, p.tone)),
            Err(e) => e matches Error::TextError(m) && annotation(marker@) == Err::<
                (Seq<char>, u32),
                Seq<char>,
            >(m@),
        },
{
    let chars = chars_of(marker);
    let last = chars[chars.len() - 1];
    if !('1' <= last && last <= '5') {
        return Err(
            Error::TextError(quoted("unsupported tone in pinyin annotation [", marker, "]")),
        );
    }
    if chars.len() == 1 {
        return Err(
            Error::TextError(quoted("missing syllable in pinyin annotation [", marker, "]")),
        );
    }
    let base = string_between(chars.as_slice(), 0, chars.len() - 1);
    assert(base@ =~= marker@.drop_last());
    Ok(PinyinOverride { base, tone: last as u32 - '0' as u32 })
}

/// Takes the annotations out of a text.
pub fn parse_pinyin_overrides(text: &str) -> (r: Result<(String, Vec<RawPinyinOverride>), Error>)
    ensures
        match r {
            Ok(p) => annotations(text@, 0) == Ok::<
                (Seq<char>, Seq<(nat, char, (Seq<char>, u32))>),
                Seq<char>,
            >((p.0@, raw_view(p.1@))),
            Err(e) => e matches Error::TextError(m) && annotations(text@, 0) == Err::<
                (Seq<char>, Seq<(nat, char, (Seq<char>, u32))>),
                Seq<char>,
            >(m@),
        },
{
    let chars = chars_of(text);
    let mut clean = String::new();
    let mut found: Vec<RawPinyinOverride> = Vec::new();
    let mut at: usize = 0;
    let mut i: usize = 0;
    proof {
        assert(chars@.skip(0) =~= chars@);
        assert(raw_view(found@) =~= Seq::empty());
        match annotations(text@, 0) {
            Ok((more, others)) => {
                assert(clean@ + more =~= more);
                assert(raw_view(found@) + others =~= others);
            },
            Err(_) => {},
        }
    }
    while i < chars.len()
        invariant
            at <= i <= chars@.len(),
            chars@ == text@,
            annotations(text@, 0) == behind(
                clean@,
                raw_view(found@),
                annotations(chars@.skip(i as int), at as nat),
            ),
        decreases chars@.len() - i,
    {
        let ghost rest = chars@.skip(i as int);
        let ghost before = clean@;
        let ghost before_found = raw_view(found@);
        let ch = chars[i];
        clean.push(ch);
        assert(clean@ =~= before + seq![ch]);
        if i + 1 < chars.len() && chars[i + 1] == '[' {
            let mut close: usize = i + 2;
            assert(rest.skip(2) =~= chars@.skip(close as int));
            while close < chars.len() && chars[close] != ']'
                invariant
                    i + 2 <= close <= chars@.len(),
                    rest == chars@.skip(i as int),
                    prefix_len(rest.skip(2), |c: char| c != ']') == close - (i + 2) + prefix_len(
                        chars@.skip(close as int),
                        |c: char| c != ']',
                    ),
                decreases chars@.len() - close,
            {
                assert(chars@.skip(close as int).skip(1) =~= chars@.skip(close + 1));
                close = close + 1;
            }
            if close < chars.len() {
                let marker = string_between(chars.as_slice(), i + 2, close);
                assert(marker@ =~= rest.subrange(2, close - i));
                if is_pinyin_annotation_candidate(marker.as_str()) {
                    assert(closing(rest) == Some(close - i));
                    if !is_cjk(ch) {
                        return Err(
                            Error::TextError(
                                quoted(
                                    "pinyin annotation [",
                                    marker.as_str(),
                                    "] must follow a Chinese character",
                                ),
                            ),
                        );
                    }
                    let pinyin = match parse_pinyin_override(marker.as_str()) {
                        Ok(p) => p,
                        Err(e) => {
                            return Err(e);
                        },
                    };
                    let ghost seen = found@;
                    let ghost reading = (pinyin.base@, pinyin.tone);
                    found.push(RawPinyinOverride { clean_index: at, ch, pinyin });
                    proof {
                        assert(raw_view(found@) =~= before_found + seq![(at as nat, ch, reading)]);
                        assert(rest.skip(close - i + 1) =~= chars@.skip(close + 1));
                        lemma_behind(
                            before,
                            before_found,
                            seq![ch],
                            seq![(at as nat, ch, reading)],
                            annotations(chars@.skip(close + 1), (at + 1) as nat),
                        );
                    }
                    i = close + 1;
                    at = at + 1;
                    continue;
                }
            }
        }
        proof {
            assert(closing(rest) is None);
            assert(rest.skip(1) =~= chars@.skip(i + 1));
            lemma_behind(
                before,
                before_found,
                seq![ch],
                Seq::empty(),
                annotations(chars@.skip(i + 1), (at + 1) as nat),
            );
            assert(before_found + Seq::<(nat, char, (Seq<char>, u32))>::empty() =~= before_found);
        }
        at = at + 1;
        i = i + 1;
    }
    proof {
        assert(clean@ + Seq::<char>::empty() =~= clean@);
        assert(raw_view(found@) + Seq::<(nat, char, (Seq<char>, u32))>::empty() =~= raw_view(
            found@,
        ));
    }
    Ok((clean, found))
}

/// How often a character occurs in a text.
pub open spec fn tally(s: Seq<char>, c: char) -> nat
    decreases s.len(),
{
    if s.len() == 0 {
        0
    } else {
        tally(s.drop_last(), c) + (if s.last() == c {
            1nat
        } else {
            0nat
        })
    }
}

/// The position of occurrence `n` of a character, counted from 0.
pub open spec fn occurrence(s: Seq<char>, c: char, n: nat) -> Option<int>
    decreases s.len(),
{
    if s.len() == 0 {
        None
    } else {
        let before = tally(s.drop_last(), c);
        if before <= n {
            if s.last() == c && before == n {
                Some(s.len() - 1)
            } else {
                None
            }
        } else {
            occurrence(s.drop_last(), c, n)
        }
    }
}

/// The place of an annotated character in the normalized text: its own place where the texts
/// are of one length and the character stands there, else the place of the same occurrence
/// of that character.
pub open spec fn place(
    clean: Seq<char>,
    normalized: Seq<char>,
    at: nat,
    ch: char,
) -> Option<int> {
    if clean.len() == normalized.len() && at < normalized.len() && normalized[at as int] == ch {
        Some(at as int)
    } else {
        let seen = tally(
            if at < clean.len() {
                clean.take(at as int + 1)
            } else {
                clean
            },
            ch,
        );
        occurrence(
            normalized,
            ch,
            if seen > 0 {
                (seen - 1) as nat
            } else {
                0
            },
        )
    }
}

/// What is said of a character whose annotation has no place.
pub open spec fn lost(ch: char) -> Seq<char> {
    "could not map pinyin annotation for '"@ + seq![ch] + "' after text normalization"@
}

/// The first `k` annotations at their places in the normalized text.
pub open spec fn placed(
    clean: Seq<char>,
    normalized: Seq<char>,
    raw: Seq<(nat, char, (Seq<char>, u32))>,
    k: nat,
) -> Result<Seq<Option<(Seq<char>, u32)>>, Seq<char>>
    decreases k,
{
    if k == 0 {
        Ok(Seq::new(normalized.len(), |i: int| None))
    } else {
        match placed(clean, normalized, raw, (k - 1) as nat) {
            Err(e) => Err(e),
            Ok(given) => match place(clean, normalized, raw[k - 1].0, raw[k - 1].1) {
                Some(i) => Ok(given.update(i, Some(raw[k - 1].2))),
                None => Err(lost(raw[k - 1].1)),
            },
        }
    }
}

/// The readings given for each character of the normalized text; none at all where there are
/// no annotations.
pub open spec fn remapped(
    clean: Seq<char>,
    normalized: Seq<char>,
    raw: Seq<(nat, char, (Seq<char>, u32))>,
) -> Result<Seq<Option<(Seq<char>, u32)>>, Seq<char>> {
    if raw.len() == 0 {
        Ok(Seq::empty())
    } else {
        placed(clean, normalized, raw, raw.len())
    }
}

proof fn lemma_occurrence_none(s: Seq<char>, c: char, n: nat)
    requires
        tally(s, c) <= n,
    ensures
        occurrence(s, c, n) is None,
{
}

proof fn lemma_occurrence_at(s: Seq<char>, c: char, n: nat, i: int)
    requires
        0 <= i < s.len(),
        s[i] == c,
        tally(s.take(i), c) == n,
    ensures
        occurrence(s, c, n) == Some(i),
    decreases s.len(),
{
    let short = s.drop_last();
    if i == s.len() - 1 {
        assert(s.take(i) =~= short);
    } else {
        assert(short.take(i) =~= s.take(i));
        lemma_occurrence_at(short, c, n, i);
        lemma_count_grows(short, c, i + 1);
        assert(short.take(i + 1).drop_last() =~= s.take(i));
        assert(short.take(i + 1).last() == c);
        assert(tally(short.take(i + 1), c) == n + 1);
    }
}

proof fn lemma_count_grows(s: Seq<char>, c: char, k: int)
    requires
        0 <= k <= s.len(),
    ensures
        tally(s.take(k), c) <= tally(s, c),
    decreases s.len(),
{
    if k == s.len() {
        assert(s.take(k) =~= s);
    } else {
        assert(s.drop_last().take(k) =~= s.take(k));
        lemma_count_grows(s.drop_last(), c, k);
    }
}

proof fn lemma_occurrence_in_range(s: Seq<char>, c: char, n: nat)
    ensures
        occurrence(s, c, n) matches Some(i) ==> 0 <= i < s.len() && s[i] == c,
    decreases s.len(),
{
    if s.len() > 0 {
        lemma_occurrence_in_range(s.drop_last(), c, n);
    }
}

/// The place of an annotated character in the normalized text by its occurrence.
pub fn find_matching_occurrence(
    clean_chars: &Vec<char>,
    normalized_chars: &Vec<char>,
    raw: &RawPinyinOverride,
) -> (r: Result<usize, Error>)
    ensures
        ({
            let seen = tally(
                if raw.clean_index < clean_chars@.len() {
                    clean_chars@.take(raw.clean_index + 1)
                } else {
                    clean_chars@
                },
                raw.ch,
            );
            let found = occurrence(
                normalized_chars@,
                raw.ch,
                if seen > 0 {
                    (seen - 1) as nat
                } else {
                    0
                },
            );
            match r {
                Ok(i) => found == Some(i as int) && i < normalized_chars@.len(),
                Err(e) => found is None && (e matches Error::TextError(m) && m@ == lost(raw.ch)),
            }
        }),
{
    let ch = raw.ch;
    let mut seen: usize = 0;
    let stop: usize = if raw.clean_index < clean_chars.len() {
        raw.clean_index + 1
    } else {
        clean_chars.len()
    };
    for i in 0..stop
        invariant
            stop <= clean_chars@.len(),
            ch == raw.ch,
            seen == tally(clean_chars@.take(i as int), raw.ch),
            seen <= i,
    {
        assert(clean_chars@.take(i + 1).drop_last() =~= clean_chars@.take(i as int));
        if clean_chars[i] == ch {
            seen = seen + 1;
        }
    }
    assert(clean_chars@.take(clean_chars@.len() as int) =~= clean_chars@);
    let wanted: usize = if seen > 0 {
        seen - 1
    } else {
        0
    };
    let mut passed: usize = 0;
    for i in 0..normalized_chars.len()
        invariant
            ch == raw.ch,
            passed == tally(normalized_chars@.take(i as int), raw.ch),
            passed <= wanted,
            passed <= i,
            seen == tally(clean_chars@.take(stop as int), raw.ch),
            stop == if raw.clean_index < clean_chars@.len() {
                raw.clean_index + 1
            } else {
                clean_chars@.len() as int
            },
            clean_chars@.take(clean_chars@.len() as int) == clean_chars@,
            wanted == if seen > 0 {
                seen - 1
            } else {
                0
            },
    {
        assert(normalized_chars@.take(i + 1).drop_last() =~= normalized_chars@.take(i as int));
        if normalized_chars[i] == ch {
            if passed == wanted {
                proof {
                    lemma_occurrence_at(normalized_chars@, ch, wanted as nat, i as int);
                }
                return Ok(i);
            }
            passed = passed + 1;
        }
    }
    proof {
        assert(normalized_chars@.take(normalized_chars@.len() as int) =~= normalized_chars@);
        lemma_occurrence_none(normalized_chars@, ch, wanted as nat);
    }
    let name = string_of_char(ch);
    Err(
        Error::TextError(
            quoted(
                "could not map pinyin annotation for '",
                name.as_str(),
                "' after text normalization",
            ),
        ),
    )
}

/// Puts the annotations at their places in the normalized text.
pub fn remap_pinyin_overrides(
    clean_text: &str,
    normalized_text: &str,
    raw_overrides: &Vec<RawPinyinOverride>,
) -> (r: Result<Vec<Option<PinyinOverride>>, Error>)
    ensures
        ({
            let given = remapped(clean_text@, normalized_text@, raw_view(raw_overrides@));
            match r {
                Ok(v) => given == Ok::<Seq<Option<(Seq<char>, u32)>>, Seq<char>>(given_view(v@)),
                Err(e) => e matches Error::TextError(m) && given == Err::<
                    Seq<Option<(Seq<char>, u32)>>,
                    Seq<char>,
                >(m@),
            }
        }),
{
    let mut given: Vec<Option<PinyinOverride>> = Vec::new();
    if raw_overrides.len() == 0 {
        assert(given_view(given@) =~= Seq::empty());
        return Ok(given);
    }
    let clean = chars_of(clean_text);
    let normalized = chars_of(normalized_text);
    for i in 0..normalized.len()
        invariant
            given@ == Seq::new(i as nat, |k: int| None::<PinyinOverride>),
    {
        given.push(None);
        assert(given@ =~= Seq::new((i + 1) as nat, |k: int| None::<PinyinOverride>));
    }
    let ghost raws = raw_view(raw_overrides@);
    assert(given_view(given@) =~= Seq::new(normalized@.len(), |i: int| None));
    for k in 0..raw_overrides.len()
        invariant
            clean@ == clean_text@,
            normalized@ == normalized_text@,
            raws == raw_view(raw_overrides@),
            raws.len() > 0,
            given@.len() == normalized@.len(),
            placed(clean@, normalized@, raws, k as nat) == Ok::<
                Seq<Option<(Seq<char>, u32)>>,
                Seq<char>,
            >(given_view(given@)),
    {
        let raw = &raw_overrides[k];
        assert(raws[k as int] == (raw.clean_index as nat, raw.ch, (
            raw.pinyin.base@,
            raw.pinyin.tone,
        )));
        let same_place = clean.len() == normalized.len() && raw.clean_index < normalized.len()
            && normalized[raw.clean_index] == raw.ch;
        let index: usize = if same_place {
            raw.clean_index
        } else {
            match find_matching_occurrence(&clean, &normalized, raw) {
                Ok(i) => i,
                Err(e) => {
                    proof {
                        lemma_error_stays(clean@, normalized@, raws, (k + 1) as nat, raws.len());
                    }
                    return Err(e);
                },
            }
        };
        let ghost before = given@;
        given.set(index, Some(raw.pinyin.clone()));
        assert(given_view(given@) =~= given_view(before).update(
            index as int,
            Some((raw.pinyin.base@, raw.pinyin.tone)),
        ));
    }
    Ok(given)
}

proof fn lemma_error_stays(
    clean: Seq<char>,
    normalized: Seq<char>,
    raw: Seq<(nat, char, (Seq<char>, u32))>,
    k: nat,
    n: nat,
)
    requires
        k <= n,
    ensures
        placed(clean, normalized, raw, k) is Err ==> placed(clean, normalized, raw, n) == placed(
            clean,
            normalized,
            raw,
            k,
        ),
    decreases n - k,
{
    if k < n {
        lemma_error_stays(clean, normalized, raw, k, (n - 1) as nat);
    }
}

/// A text in which a reading stands in brackets behind a character.
pub open spec fn annotated(ch: char, marker: Seq<char>, rest: Seq<char>) -> Seq<char> {
    seq![ch, '['] + marker + seq![']'] + rest
}

proof fn lemma_annotated(ch: char, marker: Seq<char>, rest: Seq<char>)
    requires
        marker.len() > 0,
        '0' <= marker.last() <= '9',
        !marker.contains(']'),
    ensures
        closing(annotated(ch, marker, rest)) == Some(marker.len() as int + 2),
        annotated(ch, marker, rest).subrange(2, marker.len() as int + 2) == marker,
        annotated(ch, marker, rest).skip(marker.len() as int + 3) == rest,
{
    let s = annotated(ch, marker, rest);
    let p = |c: char| c != ']';
    let n = marker.len() as int;
    assert forall|i: int| 0 <= i < n implies p(#[trigger] s.skip(2)[i]) by {
        assert(s.skip(2)[i] == marker[i]);
        assert(marker.contains(marker[i]));
    }
    assert(s.skip(2)[n] == ']');
    lemma_prefix_ends(s.skip(2), p, n);
    assert(s.subrange(2, n + 2) =~= marker);
    assert(s.skip(n + 3) =~= rest);
}

/// A Chinese character with a reading in brackets, a syllable and a tone, stays in the text
/// without them, and has that reading at its place.
pub proof fn annotated_characters_have_their_reading(
    ch: char,
    base: Seq<char>,
    tone: u32,
    rest: Seq<char>,
    at: nat,
)
    requires
        0x4E00 <= ch as u32 <= 0x9FFF,
        base.len() > 0,
        !base.contains(']'),
        1 <= tone <= 5,
    ensures
        match annotations(rest, at + 1) {
            Ok((clean, found)) => annotations(
                annotated(ch, base.push((48 + tone) as char), rest),
                at,
            ) == Ok::<(Seq<char>, Seq<(nat, char, (Seq<char>, u32))>), Seq<char>>(
                (seq![ch] + clean, seq![(at, ch, (base, tone))] + found),
            ),
            Err(e) => annotations(annotated(ch, base.push((48 + tone) as char), rest), at) == Err::<
                (Seq<char>, Seq<(nat, char, (Seq<char>, u32))>),
                Seq<char>,
            >(e),
        },
{
    let digit = (48 + tone) as char;
    let marker = base.push(digit);
    assert(digit as u32 == 48 + tone);
    assert(!marker.contains(']')) by {
        if marker.contains(']') {
            let i = marker.index_of(']');
            assert(i < base.len());
            assert(base[i] == ']');
        }
    }
    lemma_annotated(ch, marker, rest);
    assert(marker.drop_last() =~= base);
    assert(annotated(ch, marker, rest)[0] == ch);
}

/// A reading in brackets is refused behind anything but a Chinese character, without a syllable
/// and with any tone but those from 1 to 5.
pub proof fn wrong_annotations_are_refused(
    ch: char,
    base: Seq<char>,
    digit: char,
    rest: Seq<char>,
    at: nat,
)
    requires
        '0' <= digit <= '9',
        !base.contains(']'),
        !(0x4E00 <= ch as u32 <= 0x9FFF) || base.len() == 0 || digit < '1' || digit > '5',
    ensures
        annotations(annotated(ch, base.push(digit), rest), at) is Err,
{
    let marker = base.push(digit);
    assert(!marker.contains(']')) by {
        if marker.contains(']') {
            let i = marker.index_of(']');
            assert(i < base.len());
            assert(base[i] == ']');
        }
    }
    lemma_annotated(ch, marker, rest);
    assert(marker.drop_last() =~= base);
    assert(annotated(ch, marker, rest)[0] == ch);
}

/// A text without brackets stays as it is and has no annotations.
pub proof fn text_without_brackets_has_no_annotations(s: Seq<char>, at: nat)
    requires
        !s.contains('['),
    ensures
        annotations(s, at) == Ok::<(Seq<char>, Seq<(nat, char, (Seq<char>, u32))>), Seq<char>>(
            (s, Seq::empty()),
        ),
    decreases s.len(),
{
    if s.len() > 0 {
        let rest = s.skip(1);
        assert(!rest.contains('[')) by {
            if rest.contains('[') {
                let i = rest.index_of('[');
                assert(s[i + 1] == '[');
            }
        }
        text_without_brackets_has_no_annotations(rest, at + 1);
        if s.len() >= 2 {
            assert(s.contains(s[1]));
        }
        assert(closing(s) is None);
        assert(seq![s[0]] + rest =~= s);
        assert(Seq::<(nat, char, (Seq<char>, u32))>::empty() + Seq::<
            (nat, char, (Seq<char>, u32)),
        >::empty() =~= Seq::empty());
    } else {
        assert(s =~= Seq::empty());
    }
}

/// A reading goes to a character equal to the annotated one: to the one at its own place where
/// the texts are of one length and it stands there, else to the one before which the character
/// occurs as often.
pub proof fn readings_go_to_their_character(
    clean: Seq<char>,
    normalized: Seq<char>,
    at: nat,
    i: int,
)
    requires
        at < clean.len(),
        0 <= i < normalized.len(),
        normalized[i] == clean[at as int],
        if clean.len() == normalized.len() && normalized[at as int] == clean[at as int] {
            i == at
        } else {
            tally(normalized.take(i), clean[at as int]) == tally(
                clean.take(at as int),
                clean[at as int],
            )
        },
    ensures
        place(clean, normalized, at, clean[at as int]) == Some(i),
{
    let ch = clean[at as int];
    assert(clean.take(at as int + 1).drop_last() =~= clean.take(at as int));
    assert(tally(clean.take(at as int + 1), ch) == tally(clean.take(at as int), ch) + 1);
    if !(clean.len() == normalized.len() && normalized[at as int] == ch) {
        lemma_occurrence_at(normalized, ch, tally(clean.take(at as int), ch), i);
    }
}

/// A character that occurs too rarely in the normalized text has no place there.
pub proof fn missing_characters_have_no_place(clean: Seq<char>, normalized: Seq<char>, at: nat)
    requires
        at < clean.len(),
        tally(normalized, clean[at as int]) <= tally(clean.take(at as int), clean[at as int]),
        clean.len() != normalized.len(),
    ensures
        place(clean, normalized, at, clean[at as int]) is None,
{
    let ch = clean[at as int];
    assert(clean.take(at as int + 1).drop_last() =~= clean.take(at as int));
    lemma_occurrence_none(normalized, ch, tally(clean.take(at as int), ch));
}

/// How often a character occurs adds up over the parts of a text.
pub proof fn tallies_add_up(a: Seq<char>, b: char, c: char)
    ensures
        tally(a.push(b), c) == tally(a, c) + if b == c {
            1nat
        } else {
            0nat
        },
        tally(Seq::empty(), c) == 0,
{
    assert(a.push(b).drop_last() =~= a);
}

/// Where normalization changes nothing, every reading stays at its place, later ones before
/// earlier ones, and a character for which none was given has none.
pub proof fn readings_stay_where_the_text_stays(
    text: Seq<char>,
    raw: Seq<(nat, char, (Seq<char>, u32))>,
    k: nat,
    i: int,
    j: int,
)
    requires
        j < k <= raw.len(),
        0 <= i < text.len(),
        forall|m: int|
            0 <= m < raw.len() ==> (#[trigger] raw[m]).0 < text.len() && text[raw[m].0 as int]
                == raw[m].1,
        forall|m: int| 0 <= m < k && j < m ==> (#[trigger] raw[m]).0 != i,
        j >= 0 ==> raw[j].0 == i,
    ensures
        placed(text, text, raw, k) is Ok,
        placed(text, text, raw, k)->Ok_0.len() == text.len(),
        j >= 0 ==> placed(text, text, raw, k)->Ok_0[i] == Some(raw[j].2),
        j < 0 ==> placed(text, text, raw, k)->Ok_0[i] is None,
    decreases k,
{
    if k > 0 {
        assert(raw[k - 1].0 < text.len());
        assert(text[raw[k - 1].0 as int] == raw[k - 1].1);
        if j == k - 1 {
            lemma_placed_ok(text, raw, (k - 1) as nat);
        } else {
            readings_stay_where_the_text_stays(text, raw, (k - 1) as nat, i, j);
            assert(raw[k - 1].0 != i);
        }
    }
}

proof fn lemma_placed_ok(text: Seq<char>, raw: Seq<(nat, char, (Seq<char>, u32))>, k: nat)
    requires
        k <= raw.len(),
        forall|m: int|
            0 <= m < raw.len() ==> (#[trigger] raw[m]).0 < text.len() && text[raw[m].0 as int]
                == raw[m].1,
    ensures
        placed(text, text, raw, k) is Ok,
        placed(text, text, raw, k)->Ok_0.len() == text.len(),
    decreases k,
{
    if k > 0 {
        lemma_placed_ok(text, raw, (k - 1) as nat);
        assert(raw[k - 1].0 < text.len());
        assert(text[raw[k - 1].0 as int] == raw[k - 1].1);
    }
}

} // verus!
