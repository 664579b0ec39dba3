//! Strings as sequences of characters: conversions, searching, splitting, joining and
//! decimal rendering.

use vstd::prelude::*;

verus! {

/// The views of a sequence of strings.
pub open spec fn views(parts: Seq<String>) -> Seq<Seq<char>> {
    parts.map_values(|s: String| s@)
}

/// The concatenation of a sequence of character sequences.
pub open spec fn concat(parts: Seq<Seq<char>>) -> Seq<char>
    decreases parts.len(),
{
    if parts.len() == 0 {
        Seq::empty()
    } else {
        concat(parts.drop_last()) + parts.last()
    }
}

/// The parts joined with `sep` between neighbours.
pub open spec fn join(parts: Seq<Seq<char>>, sep: Seq<char>) -> Seq<char>
    decreases parts.len(),
{
    if parts.len() == 0 {
        Seq::empty()
    } else if parts.len() == 1 {
        parts[0]
    } else {
        join(parts.drop_last(), sep) + sep + parts.last()
    }
}

/// Length of the longest prefix of `s` whose characters all satisfy `p`.
pub open spec fn prefix_len(s: Seq<char>, p: spec_fn(char) -> bool) -> nat
    decreases s.len(),
{
    if s.len() > 0 && p(s[0]) {
        1 + prefix_len(s.skip(1), p)
    } else {
        0
    }
}

/// White space: the characters with the Unicode property White_Space.
pub open spec fn is_space(c: char) -> bool {
    ||| '\u{9}' <= c <= '\u{d}'
    ||| c == ' '
    ||| c == '\u{85}'
    ||| c == '\u{a0}'
    ||| c == '\u{1680}'
    ||| '\u{2000}' <= c <= '\u{200a}'
    ||| c == '\u{2028}'
    ||| c == '\u{2029}'
    ||| c == '\u{202f}'
    ||| c == '\u{205f}'
    ||| c == '\u{3000}'
}

/// Whether a character is an ASCII character.
pub open spec fn is_ascii(c: char) -> bool {
    c < '\u{80}'
}

/// Whether a character is a Chinese punctuation mark that can end a part of a sentence.
pub open spec fn is_mark(c: char) -> bool {
    ||| c == '…'
    ||| c == '—'
    ||| c == '。'
    ||| c == '，'
    ||| c == '、'
    ||| c == '？'
    ||| c == '！'
    ||| c == '；'
    ||| c == '：'
}

/// `char::is_alphabetic` on characters beyond ASCII: the Unicode property Alphabetic.
pub uninterp spec fn letter_beyond_ascii(c: char) -> bool;

/// `char::is_alphanumeric` on characters beyond ASCII: Unicode alphabetic or numeric.
pub uninterp spec fn letter_or_number_beyond_ascii(c: char) -> bool;

/// `str::to_lowercase` on texts that are not all ASCII: their Unicode lowercase form.
pub uninterp spec fn lowercase_beyond_ascii(s: Seq<char>) -> Seq<char>;

/// `str::to_uppercase` on texts that are not all ASCII: their Unicode uppercase form.
pub uninterp spec fn uppercase_beyond_ascii(s: Seq<char>) -> Seq<char>;

/// Whether a character is a letter.
pub open spec fn is_letter(c: char) -> bool {
    if is_ascii(c) {
        is_ascii_letter(c)
    } else {
        letter_beyond_ascii(c)
    }
}

/// Whether a character is a letter or a number.
pub open spec fn is_letter_or_number(c: char) -> bool {
    if is_ascii(c) {
        is_ascii_letter(c) || is_digit(c)
    } else {
        !is_space(c) && !is_mark(c) && letter_or_number_beyond_ascii(c)
    }
}

/// Whether all characters of a text are ASCII characters.
pub open spec fn all_ascii(s: Seq<char>) -> bool {
    forall|i: int| 0 <= i < s.len() ==> is_ascii(#[trigger] s[i])
}

/// The lowercase form of a text.
pub open spec fn lowercase(s: Seq<char>) -> Seq<char> {
    if all_ascii(s) {
        ascii_lowered(s)
    } else {
        lowercase_beyond_ascii(s)
    }
}

/// The uppercase form of a text.
pub open spec fn uppercase(s: Seq<char>) -> Seq<char> {
    if all_ascii(s) {
        ascii_uppered(s)
    } else {
        uppercase_beyond_ascii(s)
    }
}

/// `char::is_whitespace` tells whether a character is Unicode white space.
pub assume_specification[ char::is_whitespace ](c: char) -> (r: bool)
    ensures
        r == is_space(c),
;

/// `char::is_alphabetic` tells whether a character is a letter: of ASCII, those from A to Z in
/// either case.
pub assume_specification[ char::is_alphabetic ](c: char) -> (r: bool)
    ensures
        is_ascii(c) ==> r == is_ascii_letter(c),
        !is_ascii(c) ==> r == letter_beyond_ascii(c),
;

/// `char::is_alphanumeric` tells whether a character is a letter or a number: of ASCII, those
/// letters and the ten digits. Letters are among them, white space and punctuation marks are not.
pub assume_specification[ char::is_alphanumeric ](c: char) -> (r: bool)
    ensures
        is_ascii(c) ==> r == (is_ascii_letter(c) || is_digit(c)),
        !is_ascii(c) ==> r == letter_or_number_beyond_ascii(c),
        is_letter(c) ==> r,
        is_space(c) || is_mark(c) ==> !r,
;

/// `str::to_lowercase` gives the lowercase form of a text; of ASCII, only letters change.
pub assume_specification[ str::to_lowercase ](s: &str) -> (r: String)
    ensures
        all_ascii(s@) ==> r@ == ascii_lowered(s@),
        !all_ascii(s@) ==> r@ == lowercase_beyond_ascii(s@),
;

/// `str::to_uppercase` gives the uppercase form of a text; of ASCII, only letters change.
pub assume_specification[ str::to_uppercase ](s: &str) -> (r: String)
    ensures
        all_ascii(s@) ==> r@ == ascii_uppered(s@),
        !all_ascii(s@) ==> r@ == uppercase_beyond_ascii(s@),
;

/// `==` on texts compares their characters.
pub assume_specification[ <str as PartialEq>::eq ](a: &str, b: &str) -> (r: bool)
    ensures
        r == (a@ == b@),
;

/// `String::push` appends one character.
pub assume_specification[ String::push ](s: &mut String, c: char)
    ensures
        final(s)@ == old(s)@.push(c),
;

/// `String::push_str` appends a text.
pub assume_specification[ String::push_str ](s: &mut String, other: &str)
    ensures
        final(s)@ == old(s)@ + other@,
;

/// The characters of a string, in order.
pub fn chars_of(s: &str) -> (chars: Vec<char>)
    ensures
        chars@ == s@,
{
    let mut chars: Vec<char> = Vec::new();
    for c in it: s.chars()
        invariant
            it.seq() == s@,
            chars@ == s@.take(it.index() as int),
    {
        chars.push(c);
    }
    chars
}

/// The string of the characters from `from` up to, but without, `to`.
pub fn string_between(chars: &[char], from: usize, to: usize) -> (s: String)
    requires
        from <= to <= chars@.len(),
    ensures
        s@ == chars@.subrange(from as int, to as int),
{
    let mut s = String::new();
    for i in from..to
        invariant
            to <= chars@.len(),
            s@ == chars@.subrange(from as int, i as int),
    {
        s.push(chars[i]);
    }
    s
}

/// The string of one character.
pub fn string_of_char(c: char) -> (s: String)
    ensures
        s@ == seq![c],
{
    let mut s = String::new();
    s.push(c);
    s
}

/// Whether two texts are the same.
pub fn same(a: &str, b: &str) -> (r: bool)
    ensures
        r == (a@ == b@),
{
    *a == *b
}

/// Whether `c` is one of the characters of `set`.
pub fn one_of(c: char, set: &str) -> (r: bool)
    ensures
        r == set@.contains(c),
{
    let chars = chars_of(set);
    for i in 0..chars.len()
        invariant
            chars@ == set@,
            forall|j: int| 0 <= j < i ==> chars@[j] != c,
    {
        if chars[i] == c {
            return true;
        }
    }
    false
}

/// Whether `c` is an ASCII digit.
pub open spec fn is_digit(c: char) -> bool {
    '0' <= c <= '9'
}

/// Whether `c` is an ASCII letter.
pub open spec fn is_ascii_letter(c: char) -> bool {
    'a' <= c <= 'z' || 'A' <= c <= 'Z'
}

/// Whether `c` is an ASCII digit.
pub fn digit(c: char) -> (r: bool)
    ensures
        r == is_digit(c),
{
    '0' <= c && c <= '9'
}

/// Whether `c` is an ASCII letter.
pub fn ascii_letter(c: char) -> (r: bool)
    ensures
        r == is_ascii_letter(c),
{
    ('a' <= c && c <= 'z') || ('A' <= c && c <= 'Z')
}

/// Whether `pat` stands in `chars` at position `at`.
pub open spec fn occurs_at(chars: Seq<char>, pat: Seq<char>, at: int) -> bool {
    0 <= at <= at + pat.len() <= chars.len() && chars.subrange(at, at + pat.len()) == pat
}

/// Whether `pat` stands in `chars` at position `at`.
pub fn matches_at(chars: &[char], pat: &[char], at: usize) -> (r: bool)
    ensures
        r == occurs_at(chars@, pat@, at as int),
{
    if at > chars.len() || pat.len() > chars.len() - at {
        return false;
    }
    let total: usize = chars.len();
    for k in 0..pat.len()
        invariant
            total == chars@.len(),
            at + pat@.len() <= total,
            forall|j: int| 0 <= j < k ==> chars@[at + j] == pat@[j],
    {
        if chars[at + k] != pat[k] {
            assert(chars@.subrange(at as int, at + pat@.len())[k as int] != pat@[k as int]);
            return false;
        }
    }
    assert(chars@.subrange(at as int, at + pat@.len()) =~= pat@);
    true
}

/// The joined text of `parts` with `sep` between neighbours.
pub fn join_strings(parts: &Vec<String>, sep: &str) -> (s: String)
    ensures
        s@ == join(views(parts@), sep@),
{
    let mut s = String::new();
    let ghost all = views(parts@);
    for i in 0..parts.len()
        invariant
            all == views(parts@),
            s@ == join(all.take(i as int), sep@),
    {
        proof {
            let next = all.take(i + 1);
            assert(next.drop_last() =~= all.take(i as int));
            assert(next.last() == parts@[i as int]@);
            if i == 0 {
                assert(all.take(0).len() == 0);
            }
        }
        if i > 0 {
            s.push_str(sep);
        }
        s.push_str(parts[i].as_str());
        if i == 0 {
            assert(s@ =~= parts@[0]@);
        }
    }
    assert(all.take(parts@.len() as int) =~= all);
    s
}

/// A prefix is no longer than the text.
pub proof fn lemma_prefix_len(s: Seq<char>, p: spec_fn(char) -> bool)
    ensures
        prefix_len(s, p) <= s.len(),
    decreases s.len(),
{
    if s.len() > 0 && p(s[0]) {
        lemma_prefix_len(s.skip(1), p);
    }
}

/// Length of the word that a text starts with.
pub open spec fn word_len(s: Seq<char>) -> nat {
    prefix_len(s, |c: char| !is_space(c))
}

/// The words of a text: its longest runs without white space.
pub open spec fn words(s: Seq<char>) -> Seq<Seq<char>>
    decreases s.len(),
{
    if s.len() == 0 {
        Seq::empty()
    } else if is_space(s[0]) {
        words(s.skip(1))
    } else {
        proof {
            lemma_prefix_len(s, |c: char| !is_space(c));
        }
        let n = word_len(s);
        seq![s.take(n as int)] + words(s.skip(n as int))
    }
}

/// Adding one string to a list.
pub proof fn lemma_views_push(parts: Seq<String>, s: String)
    ensures
        views(parts.push(s)) == views(parts).push(s@),
{
    assert(views(parts.push(s)) =~= views(parts).push(s@));
}

/// The words of a text.
pub fn split_words(s: &str) -> (r: Vec<String>)
    ensures
        views(r@) == words(s@),
{
    let chars = chars_of(s);
    let mut r: Vec<String> = Vec::new();
    let mut i: usize = 0;
    assert(chars@.skip(0) =~= chars@);
    assert(views(r@) + words(chars@) =~= words(chars@));
    while i < chars.len()
        invariant
            i <= chars@.len(),
            chars@ == s@,
            views(r@) + words(chars@.skip(i as int)) == words(s@),
        decreases chars@.len() - i,
    {
        let ghost rest = chars@.skip(i as int);
        if chars[i].is_whitespace() {
            assert(rest.skip(1) =~= chars@.skip(i + 1));
            i = i + 1;
        } else {
            let start: usize = i;
            assert(rest.skip(0) =~= rest);
            while i < chars.len() && !chars[i].is_whitespace()
                invariant
                    start <= i <= chars@.len(),
                    rest == chars@.skip(start as int),
                    word_len(rest) == i - start + word_len(chars@.skip(i as int)),
                decreases chars@.len() - i,
            {
                assert(chars@.skip(i as int).skip(1) =~= chars@.skip(i + 1));
                i = i + 1;
            }
            let word = string_between(chars.as_slice(), start, i);
            proof {
                let n = word_len(rest);
                assert(n == i - start);
                assert(word@ =~= rest.take(n as int));
                assert(rest.skip(n as int) =~= chars@.skip(i as int));
                lemma_views_push(r@, word);
                assert(views(r@).push(word@) + words(chars@.skip(i as int)) =~= views(r@) + (seq![
                    word@,
                ] + words(chars@.skip(i as int))));
            }
            r.push(word);
        }
    }
    assert(views(r@) + Seq::<Seq<char>>::empty() =~= views(r@));
    r
}

/// The text with each occurrence of `pat` replaced, from left to right.
pub open spec fn replaced(s: Seq<char>, pat: Seq<char>, with: Seq<char>) -> Seq<char>
    recommends
        pat.len() > 0,
    decreases s.len(),
{
    if s.len() == 0 || pat.len() == 0 {
        s
    } else if occurs_at(s, pat, 0) {
        with + replaced(s.skip(pat.len() as int), pat, with)
    } else {
        seq![s[0]] + replaced(s.skip(1), pat, with)
    }
}

/// The text with each occurrence of `pat` replaced, from left to right.
pub fn replace(s: &str, pat: &str, with: &str) -> (r: String)
    requires
        pat@.len() > 0,
    ensures
        r@ == replaced(s@, pat@, with@),
{
    let chars = chars_of(s);
    let pattern = chars_of(pat);
    let mut r = String::new();
    let mut i: usize = 0;
    assert(chars@.skip(0) =~= chars@);
    assert(r@ + replaced(s@, pat@, with@) =~= replaced(s@, pat@, with@));
    while i < chars.len()
        invariant
            i <= chars@.len(),
            chars@ == s@,
            pattern@ == pat@,
            pat@.len() > 0,
            r@ + replaced(chars@.skip(i as int), pat@, with@) == replaced(s@, pat@, with@),
        decreases chars@.len() - i,
    {
        let ghost rest = chars@.skip(i as int);
        let ghost before = r@;
        if matches_at(chars.as_slice(), pattern.as_slice(), i) {
            assert(rest.subrange(0, pat@.len() as int) =~= chars@.subrange(
                i as int,
                i + pat@.len(),
            ));
            assert(rest.skip(pat@.len() as int) =~= chars@.skip(i + pat@.len()));
            r.push_str(with);
            i = i + pattern.len();
            assert(before + (with@ + replaced(chars@.skip(i as int), pat@, with@)) =~= r@
                + replaced(chars@.skip(i as int), pat@, with@));
        } else {
            assert(!occurs_at(rest, pat@, 0)) by {
                if occurs_at(rest, pat@, 0) {
                    assert(rest.subrange(0, pat@.len() as int) =~= chars@.subrange(
                        i as int,
                        i + pat@.len(),
                    ));
                }
            }
            assert(rest.skip(1) =~= chars@.skip(i + 1));
            r.push(chars[i]);
            i = i + 1;
            assert(before + (seq![rest[0]] + replaced(chars@.skip(i as int), pat@, with@)) =~= r@
                + replaced(chars@.skip(i as int), pat@, with@));
        }
    }
    assert(r@ + Seq::<char>::empty() =~= r@);
    r
}

/// The text without white space at its start.
pub open spec fn trimmed_start(s: Seq<char>) -> Seq<char>
    decreases s.len(),
{
    if s.len() > 0 && is_space(s[0]) {
        trimmed_start(s.skip(1))
    } else {
        s
    }
}

/// The text without white space at its end.
pub open spec fn trimmed_end(s: Seq<char>) -> Seq<char>
    decreases s.len(),
{
    if s.len() > 0 && is_space(s.last()) {
        trimmed_end(s.drop_last())
    } else {
        s
    }
}

/// The text without white space at its ends.
pub open spec fn trimmed(s: Seq<char>) -> Seq<char> {
    trimmed_end(trimmed_start(s))
}

/// The text without white space at its ends.
pub fn trim(s: &str) -> (r: String)
    ensures
        r@ == trimmed(s@),
{
    let chars = chars_of(s);
    let mut from: usize = 0;
    assert(chars@.skip(0) =~= chars@);
    while from < chars.len() && chars[from].is_whitespace()
        invariant
            from <= chars@.len(),
            trimmed_start(chars@.skip(from as int)) == trimmed_start(chars@),
        decreases chars@.len() - from,
    {
        assert(chars@.skip(from as int).skip(1) =~= chars@.skip(from + 1));
        from = from + 1;
    }
    let ghost start = chars@.skip(from as int);
    let mut to: usize = chars.len();
    assert(chars@.subrange(from as int, to as int) =~= start);
    while to > from && chars[to - 1].is_whitespace()
        invariant
            from <= to <= chars@.len(),
            trimmed_end(chars@.subrange(from as int, to as int)) == trimmed_end(start),
        decreases to,
    {
        assert(chars@.subrange(from as int, to as int).drop_last() =~= chars@.subrange(
            from as int,
            to - 1,
        ));
        to = to - 1;
    }
    string_between(chars.as_slice(), from, to)
}

/// The digit of a number below ten.
pub open spec fn digit_char(d: nat) -> char {
    (('0' as nat) + d) as char
}

/// A number in decimal.
pub open spec fn decimal(n: nat) -> Seq<char>
    decreases n,
{
    if n < 10 {
        seq![digit_char(n)]
    } else {
        decimal(n / 10).push(digit_char(n % 10))
    }
}

/// A number in decimal.
pub fn decimal_string(n: u64) -> (r: String)
    ensures
        r@ == decimal(n as nat),
    decreases n,
{
    let digit: u8 = (n % 10) as u8;
    let mut r = if n < 10 {
        String::new()
    } else {
        decimal_string(n / 10)
    };
    r.push((48u8 + digit) as char);
    r
}

/// How many characters of a text satisfy `p`.
pub open spec fn count(s: Seq<char>, p: spec_fn(char) -> bool) -> nat
    decreases s.len(),
{
    if s.len() == 0 {
        0
    } else {
        count(s.drop_last(), p) + (if p(s.last()) {
            1nat
        } else {
            0nat
        })
    }
}

/// No more characters than there are satisfy `p`.
pub proof fn lemma_count(s: Seq<char>, p: spec_fn(char) -> bool)
    ensures
        count(s, p) <= s.len(),
    decreases s.len(),
{
    if s.len() > 0 {
        lemma_count(s.drop_last(), p);
    }
}

/// A line without the carriage return that ends it.
pub open spec fn without_cr(line: Seq<char>) -> Seq<char> {
    if line.len() > 0 && line.last() == '\r' {
        line.drop_last()
    } else {
        line
    }
}

/// Length of the first line of a text, without its line feed.
pub open spec fn line_len(s: Seq<char>) -> nat {
    prefix_len(s, |c: char| c != '\n')
}

/// The lines of a text, each ended by a line feed or a carriage return and a line feed; the
/// end of the text ends the last one.
pub open spec fn lines(s: Seq<char>) -> Seq<Seq<char>>
    decreases s.len(),
{
    if s.len() == 0 {
        Seq::empty()
    } else {
        proof {
            lemma_prefix_len(s, |c: char| c != '\n');
        }
        let n = line_len(s);
        if n == s.len() {
            seq![s]
        } else {
            seq![without_cr(s.take(n as int))] + lines(s.skip(n as int + 1))
        }
    }
}

/// The lines of a text.
pub fn split_lines(s: &str) -> (r: Vec<String>)
    ensures
        views(r@) == lines(s@),
{
    let chars = chars_of(s);
    let mut r: Vec<String> = Vec::new();
    let mut i: usize = 0;
    assert(chars@.skip(0) =~= chars@);
    assert(views(r@) + lines(chars@) =~= lines(chars@));
    while i < chars.len()
        invariant
            i <= chars@.len(),
            chars@ == s@,
            views(r@) + lines(chars@.skip(i as int)) == lines(s@),
        decreases chars@.len() - i,
    {
        let ghost rest = chars@.skip(i as int);
        let start: usize = i;
        while i < chars.len() && chars[i] != '\n'
            invariant
                start <= i <= chars@.len(),
                rest == chars@.skip(start as int),
                line_len(rest) == i - start + line_len(chars@.skip(i as int)),
            decreases chars@.len() - i,
        {
            assert(chars@.skip(i as int).skip(1) =~= chars@.skip(i + 1));
            i = i + 1;
        }
        let ghost n = line_len(rest);
        assert(n == i - start);
        if i == chars.len() {
            let line = string_between(chars.as_slice(), start, i);
            proof {
                assert(line@ =~= rest);
                lemma_views_push(r@, line);
                assert(views(r@).push(line@) =~= views(r@) + seq![line@]);
                assert(chars@.skip(i as int) =~= Seq::empty());
                assert(views(r@).push(line@) + Seq::<Seq<char>>::empty() =~= views(r@).push(line@));
            }
            r.push(line);
        } else {
            let end: usize = if i > start && chars[i - 1] == '\r' {
                i - 1
            } else {
                i
            };
            let line = string_between(chars.as_slice(), start, end);
            i = i + 1;
            proof {
                assert(line@ =~= without_cr(rest.take(n as int)));
                assert(rest.skip(n as int + 1) =~= chars@.skip(i as int));
                lemma_views_push(r@, line);
                assert(views(r@).push(line@) + lines(chars@.skip(i as int)) =~= views(r@) + (seq![
                    line@,
                ] + lines(chars@.skip(i as int))));
            }
            r.push(line);
        }
    }
    assert(views(r@) + Seq::<Seq<char>>::empty() =~= views(r@));
    r
}

/// An ASCII letter in lower case; other characters stay.
pub open spec fn ascii_lower(c: char) -> char {
    if 'A' <= c <= 'Z' {
        (c as u32 + 32) as char
    } else {
        c
    }
}

/// A character in upper case where it is an ASCII letter.
pub open spec fn ascii_upper(c: char) -> char {
    if 'a' <= c <= 'z' {
        (c as u32 - 32) as char
    } else {
        c
    }
}

/// A text with its ASCII letters in upper case.
pub open spec fn ascii_uppered(s: Seq<char>) -> Seq<char> {
    s.map_values(|c: char| ascii_upper(c))
}

/// A text with its ASCII letters in lower case.
pub open spec fn ascii_lowered(s: Seq<char>) -> Seq<char> {
    s.map_values(|c: char| ascii_lower(c))
}

/// A text with its ASCII letters in lower case.
pub fn ascii_lowercase(s: &str) -> (r: String)
    ensures
        r@ == ascii_lowered(s@),
{
    let chars = chars_of(s);
    let mut r = String::new();
    for i in 0..chars.len()
        invariant
            chars@ == s@,
            r@ == ascii_lowered(chars@.take(i as int)),
    {
        let c = chars[i];
        if 'A' <= c && c <= 'Z' {
            r.push((c as u8 + 32) as char);
        } else {
            r.push(c);
        }
        assert(r@ =~= ascii_lowered(chars@.take(i + 1)));
    }
    assert(chars@.take(chars@.len() as int) =~= chars@);
    r
}

/// The value of decimal digits.
pub open spec fn digits_value(s: Seq<char>) -> nat
    decreases s.len(),
{
    if s.len() == 0 {
        0
    } else {
        10 * digits_value(s.drop_last()) + (s.last() as nat - '0' as nat) as nat
    }
}

/// Whether a text holds digits only.
pub open spec fn all_digits(s: Seq<char>) -> bool {
    forall|i: int| 0 <= i < s.len() ==> is_digit(#[trigger] s[i])
}

/// The number that a text stands for, with or without a plus sign before its digits.
pub open spec fn number_in(s: Seq<char>) -> Option<nat> {
    let digits = if s.len() > 0 && s[0] == '+' {
        s.skip(1)
    } else {
        s
    };
    if digits.len() > 0 && all_digits(digits) {
        Some(digits_value(digits))
    } else {
        None
    }
}

/// The number that a text stands for, if there is one and it fits.
pub fn parse_number(s: &str) -> (r: Option<usize>)
    ensures
        r == match number_in(s@) {
            Some(n) => if n <= usize::MAX {
                Some(n as usize)
            } else {
                None
            },
            None => None,
        },
{
    let chars = chars_of(s);
    let from: usize = if chars.len() > 0 && chars[0] == '+' {
        1
    } else {
        0
    };
    let ghost digits = if s@.len() > 0 && s@[0] == '+' {
        s@.skip(1)
    } else {
        s@
    };
    if from == chars.len() {
        return None;
    }
    let mut value: Option<usize> = Some(0);
    for i in from..chars.len()
        invariant
            from <= chars@.len(),
            chars@ == s@,
            digits == if s@.len() > 0 && s@[0] == '+' {
                s@.skip(1)
            } else {
                s@
            },
            from == s@.len() - digits.len(),
            forall|k: int| 0 <= k < digits.len() ==> digits[k] == chars@[k + from],
            forall|k: int| 0 <= k < i - from ==> is_digit(#[trigger] digits[k]),
            match value {
                Some(v) => v == digits_value(digits.take(i - from)),
                None => digits_value(digits.take(i - from)) > usize::MAX,
            },
    {
        let c = chars[i];
        assert(digits[i - from] == c);
        if !digit(c) {
            assert(!all_digits(digits));
            return None;
        }
        assert(digits.take(i + 1 - from).drop_last() =~= digits.take(i - from));
        assert(digits.take(i + 1 - from).last() == c);
        value = match value {
            Some(v) => match v.checked_mul(10) {
                Some(tens) => tens.checked_add(c as usize - 48),
                None => None,
            },
            None => None,
        };
    }
    assert(digits.take(chars@.len() - from) =~= digits);
    value
}

/// Where a part begins in a joined text: behind those before it and a separator for each.
pub open spec fn part_start(parts: Seq<Seq<char>>, sep: Seq<char>, i: int) -> int {
    concat(parts.take(i)).len() + i * sep.len()
}

proof fn lemma_part_start(parts: Seq<Seq<char>>, sep: Seq<char>, i: int, j: int)
    requires
        0 <= j <= i < parts.len(),
    ensures
        part_start(parts, sep, 0) == 0,
        part_start(parts, sep, i + 1) == part_start(parts, sep, i) + parts[i].len() + sep.len(),
        part_start(parts.take(i), sep, j) == part_start(parts, sep, j),
{
    let n = sep.len();
    assert(parts.take(0) =~= Seq::empty());
    assert(0 * n == 0) by (nonlinear_arith);
    assert(parts.take(i + 1).drop_last() =~= parts.take(i));
    assert((i + 1) * n == i * n + n) by (nonlinear_arith);
    assert(parts.take(i).take(j) =~= parts.take(j));
}

/// A joined text is as long as its parts and the separators between them.
pub proof fn joined_text_is_as_long_as_its_parts(parts: Seq<Seq<char>>, sep: Seq<char>)
    requires
        parts.len() > 0,
    ensures
        join(parts, sep).len() == concat(parts).len() + (parts.len() - 1) * sep.len(),
        join(parts, sep).len() == part_start(parts, sep, parts.len() - 1) + parts.last().len(),
    decreases parts.len(),
{
    let last = parts.len() - 1;
    let n = sep.len();
    lemma_part_start(parts, sep, last, 0);
    assert(parts.drop_last() =~= parts.take(last));
    if parts.len() == 1 {
        assert(parts.drop_last() =~= Seq::empty());
        assert(0 * n == 0) by (nonlinear_arith);
    } else {
        joined_text_is_as_long_as_its_parts(parts.drop_last(), sep);
        assert((last - 1) * n + n == last * n) by (nonlinear_arith);
    }
}

/// A joined text holds each of its parts, in order, with the separator before each but the first.
pub proof fn joined_text_holds_its_parts(parts: Seq<Seq<char>>, sep: Seq<char>, i: int)
    requires
        0 <= i < parts.len(),
    ensures
        occurs_at(join(parts, sep), parts[i], part_start(parts, sep, i)),
        i > 0 ==> occurs_at(join(parts, sep), sep, part_start(parts, sep, i) - sep.len()),
    decreases parts.len(),
{
    let last = parts.len() - 1;
    let n = sep.len();
    let all = join(parts, sep);
    lemma_part_start(parts, sep, last, i);
    joined_text_is_as_long_as_its_parts(parts, sep);
    let at = part_start(parts, sep, i);
    if parts.len() == 1 {
        assert(all.subrange(at, at + parts[i].len()) =~= parts[i]);
    } else {
        let rest = parts.drop_last();
        assert(rest =~= parts.take(last));
        joined_text_is_as_long_as_its_parts(rest, sep);
        assert((last - 1) * n + n == last * n) by (nonlinear_arith);
        let before = join(rest, sep);
        assert(part_start(parts, sep, last) == before.len() + n);
        if i < last {
            joined_text_holds_its_parts(rest, sep, i);
            assert(rest[i] == parts[i]);
            assert(all.subrange(at, at + parts[i].len()) =~= before.subrange(
                at,
                at + parts[i].len(),
            ));
            if i > 0 {
                assert(all.subrange(at - n, at) =~= before.subrange(at - n, at));
            }
        } else {
            assert(all.subrange(at, at + parts[i].len()) =~= parts[i]);
            assert(all.subrange(at - n, at) =~= sep);
        }
    }
}

/// Single characters joined by a character stand at every other place.
pub proof fn joined_characters_alternate(parts: Seq<Seq<char>>, sep: Seq<char>, i: int)
    requires
        0 <= i < parts.len(),
        sep.len() == 1,
        forall|k: int| 0 <= k < parts.len() ==> (#[trigger] parts[k]).len() == 1,
    ensures
        join(parts, sep).len() == 2 * parts.len() - 1,
        join(parts, sep)[2 * i] == parts[i][0],
        i + 1 < parts.len() ==> join(parts, sep)[2 * i + 1] == sep[0],
    decreases parts.len(),
{
    if parts.len() > 1 {
        let rest = parts.drop_last();
        assert(parts.last().len() == 1);
        assert forall|k: int| 0 <= k < rest.len() implies (#[trigger] rest[k]).len() == 1 by {
            assert(parts[k].len() == 1);
        }
        if i < rest.len() {
            joined_characters_alternate(rest, sep, i);
            assert(rest[i] == parts[i]);
        } else {
            joined_characters_alternate(rest, sep, i - 1);
        }
    }
}

/// A number in decimal is made of digits that spell it, and begins with a zero only where it is
/// zero.
pub proof fn decimals_spell_their_number(n: nat)
    ensures
        digits_value(decimal(n)) == n,
        decimal(n).len() > 0,
        forall|i: int| 0 <= i < decimal(n).len() ==> '0' <= #[trigger] decimal(n)[i] <= '9',
        decimal(n)[0] == '0' ==> n == 0,
    decreases n,
{
    let d = decimal(n);
    if n < 10 {
        assert(d.drop_last() =~= Seq::empty());
        assert(digits_value(d.drop_last()) == 0);
    } else {
        decimals_spell_their_number(n / 10);
        assert(d.drop_last() =~= decimal(n / 10));
        assert forall|i: int| 0 <= i < d.len() implies '0' <= #[trigger] d[i] <= '9' by {
            if i < d.len() - 1 {
                assert(d[i] == decimal(n / 10)[i]);
            }
        }
        assert(d[0] == decimal(n / 10)[0]);
    }
}

/// The words of two texts with white space between them are those of the one and of the other.
pub proof fn words_part_at_white_space(a: Seq<char>, c: char, b: Seq<char>)
    requires
        is_space(c),
    ensures
        words(a.push(c) + b) == words(a) + words(b),
    decreases a.len(),
{
    let s = a.push(c) + b;
    if a.len() == 0 {
        assert(s.skip(1) =~= b);
        assert(words(a) + words(b) =~= words(b));
    } else if is_space(a[0]) {
        words_part_at_white_space(a.skip(1), c, b);
        assert(s.skip(1) =~= a.skip(1).push(c) + b);
    } else {
        lemma_prefix_len(a, |x: char| !is_space(x));
        lemma_word_len_stops(a, c, b);
        let n = word_len(a);
        assert(n > 0);
        words_part_at_white_space(a.skip(n as int), c, b);
        assert(s.take(n as int) =~= a.take(n as int));
        assert(s.skip(n as int) =~= a.skip(n as int).push(c) + b);
        assert(seq![a.take(n as int)] + (words(a.skip(n as int)) + words(b)) =~= seq![
            a.take(n as int),
        ] + words(a.skip(n as int)) + words(b));
    }
}

proof fn lemma_word_len_stops(a: Seq<char>, c: char, b: Seq<char>)
    requires
        is_space(c),
    ensures
        word_len(a.push(c) + b) == word_len(a),
    decreases a.len(),
{
    let s = a.push(c) + b;
    if a.len() > 0 && !is_space(a[0]) {
        lemma_word_len_stops(a.skip(1), c, b);
        assert(s.skip(1) =~= a.skip(1).push(c) + b);
    }
}

/// A text without white space is one word, unless it is empty.
pub proof fn text_without_white_space_is_a_word(s: Seq<char>)
    requires
        s.len() > 0,
        forall|i: int| 0 <= i < s.len() ==> !is_space(#[trigger] s[i]),
    ensures
        words(s) == seq![s],
{
    lemma_word_len_whole(s);
    assert(s.take(s.len() as int) =~= s);
    assert(!is_space(s[0]));
    assert(words(s.skip(s.len() as int)) == Seq::<Seq<char>>::empty());
    assert(words(s) =~= seq![s]);
}

proof fn lemma_word_len_whole(s: Seq<char>)
    requires
        forall|i: int| 0 <= i < s.len() ==> !is_space(#[trigger] s[i]),
    ensures
        word_len(s) == s.len(),
    decreases s.len(),
{
    if s.len() > 0 {
        assert(!is_space(s[0]));
        assert forall|i: int| 0 <= i < s.skip(1).len() implies !is_space(#[trigger] s.skip(1)[i]) by {
            assert(!is_space(s[i + 1]));
        }
        lemma_word_len_whole(s.skip(1));
    }
}

/// A text in which a pattern does not occur stays as it is.
pub proof fn text_without_the_pattern_stays(s: Seq<char>, pat: Seq<char>, with: Seq<char>)
    requires
        forall|at: int| !occurs_at(s, pat, at),
    ensures
        replaced(s, pat, with) == s,
    decreases s.len(),
{
    if s.len() > 0 && pat.len() > 0 {
        assert(!occurs_at(s, pat, 0));
        let rest = s.skip(1);
        assert forall|at: int| !occurs_at(rest, pat, at) by {
            if occurs_at(rest, pat, at) {
                assert(rest.subrange(at, at + pat.len()) =~= s.subrange(at + 1, at + 1 + pat.len()));
                assert(occurs_at(s, pat, at + 1));
            }
        }
        text_without_the_pattern_stays(rest, pat, with);
        assert(seq![s[0]] + rest =~= s);
    }
}

/// The first occurrence of a pattern is replaced, what is before it stays, and what is behind it
/// is gone on with.
pub proof fn first_occurrence_is_replaced(
    a: Seq<char>,
    pat: Seq<char>,
    with: Seq<char>,
    b: Seq<char>,
)
    requires
        pat.len() > 0,
        forall|at: int| 0 <= at < a.len() ==> !occurs_at(a + pat + b, pat, at),
    ensures
        replaced(a + pat + b, pat, with) == a + with + replaced(b, pat, with),
    decreases a.len(),
{
    let s = a + pat + b;
    if a.len() == 0 {
        assert(s.subrange(0, pat.len() as int) =~= pat);
        assert(s.skip(pat.len() as int) =~= b);
        assert(a + with =~= with);
    } else {
        assert(!occurs_at(s, pat, 0));
        let rest = s.skip(1);
        assert(rest =~= a.skip(1) + pat + b);
        assert forall|at: int| 0 <= at < a.skip(1).len() implies !occurs_at(
            a.skip(1) + pat + b,
            pat,
            at,
        ) by {
            if occurs_at(rest, pat, at) {
                assert(rest.subrange(at, at + pat.len()) =~= s.subrange(at + 1, at + 1 + pat.len()));
                assert(occurs_at(s, pat, at + 1));
            }
        }
        first_occurrence_is_replaced(a.skip(1), pat, with, b);
        assert(seq![s[0]] + (a.skip(1) + with + replaced(b, pat, with)) =~= a + with + replaced(
            b,
            pat,
            with,
        ));
    }
}

/// Trimming takes away white space at the ends, all of it and nothing else.
pub proof fn trimming_takes_white_space_only(a: Seq<char>, s: Seq<char>, b: Seq<char>)
    requires
        forall|i: int| 0 <= i < a.len() ==> is_space(#[trigger] a[i]),
        forall|i: int| 0 <= i < b.len() ==> is_space(#[trigger] b[i]),
        s.len() > 0 ==> !is_space(s[0]) && !is_space(s.last()),
    ensures
        trimmed(a + s + b) == s,
    decreases a.len() + b.len(), b.len(),
{
    let t = a + s + b;
    if a.len() > 0 {
        assert(is_space(t[0])) by {
            assert(is_space(a[0]));
        }
        assert(t.skip(1) =~= a.skip(1) + s + b);
        assert forall|i: int| 0 <= i < a.skip(1).len() implies is_space(#[trigger] a.skip(1)[i]) by {
            assert(is_space(a[i + 1]));
        }
        trimming_takes_white_space_only(a.skip(1), s, b);
    } else if s.len() == 0 && b.len() > 0 {
        assert(t =~= b + s + a);
        trimming_takes_white_space_only(b, s, a);
    } else {
        assert(t =~= s + b);
        lemma_trimmed_end_of(s, b);
    }
}

proof fn lemma_trimmed_end_of(s: Seq<char>, b: Seq<char>)
    requires
        forall|i: int| 0 <= i < b.len() ==> is_space(#[trigger] b[i]),
        s.len() > 0 ==> !is_space(s.last()),
    ensures
        trimmed_end(s + b) == s,
    decreases b.len(),
{
    if b.len() == 0 {
        assert(s + b =~= s);
    } else {
        assert(is_space(b[b.len() - 1]));
        assert((s + b).drop_last() =~= s + b.drop_last());
        assert forall|i: int| 0 <= i < b.drop_last().len() implies is_space(
            #[trigger] b.drop_last()[i],
        ) by {
            assert(is_space(b[i]));
        }
        lemma_trimmed_end_of(s, b.drop_last());
    }
}

/// The longest prefix of characters of a kind ends before the first one of another kind.
pub proof fn lemma_prefix_ends(s: Seq<char>, p: spec_fn(char) -> bool, n: int)
    requires
        0 <= n <= s.len(),
        forall|i: int| 0 <= i < n ==> p(#[trigger] s[i]),
        n == s.len() || !p(s[n]),
    ensures
        prefix_len(s, p) == n,
    decreases n,
{
    if n > 0 {
        assert(p(s[0]));
        assert forall|i: int| 0 <= i < n - 1 implies p(#[trigger] s.skip(1)[i]) by {
            assert(p(s[i + 1]));
        }
        lemma_prefix_ends(s.skip(1), p, n - 1);
    }
}

/// A line feed ends a line, which it is no part of, and neither is a carriage return before it;
/// what follows is read as a text of its own.
pub proof fn lines_part_at_line_feeds(a: Seq<char>, b: Seq<char>)
    requires
        !a.contains('\n'),
    ensures
        a.len() == 0 || a.last() != '\r' ==> lines(a + seq!['\n'] + b) == seq![a] + lines(b),
        lines(a + seq!['\r', '\n'] + b) == seq![a] + lines(b),
        a.len() > 0 ==> lines(a) == seq![a],
{
    let p = |c: char| c != '\n';
    assert forall|i: int| 0 <= i < a.len() implies p(#[trigger] a[i]) by {
        assert(a.contains(a[i]));
    }
    if a.len() > 0 {
        lemma_prefix_ends(a, p, a.len() as int);
    }
    let s = a + seq!['\n'] + b;
    assert forall|i: int| 0 <= i < a.len() implies p(#[trigger] s[i]) by {
        assert(p(a[i]));
    }
    lemma_prefix_ends(s, p, a.len() as int);
    assert(s.take(a.len() as int) =~= a);
    assert(s.skip(a.len() as int + 1) =~= b);
    let n = a.len() as int + 1;
    let t = a + seq!['\r', '\n'] + b;
    assert forall|i: int| 0 <= i < n implies p(#[trigger] t[i]) by {
        if i < a.len() {
            assert(p(a[i]));
        }
    }
    lemma_prefix_ends(t, p, n);
    assert(t.take(n) =~= a.push('\r'));
    assert(a.push('\r').drop_last() =~= a);
    assert(t.skip(n + 1) =~= b);
}

/// Upper and lower case differ by 32 on the letters of ASCII and agree on every other character,
/// each character standing at its place.
pub proof fn case_is_a_matter_of_letters(s: Seq<char>, i: int)
    requires
        0 <= i < s.len(),
    ensures
        ascii_uppered(s).len() == s.len(),
        ascii_lowered(s).len() == s.len(),
        97 <= s[i] as u32 <= 122 ==> ascii_uppered(s)[i] as u32 == s[i] as u32 - 32
            && ascii_lowered(s)[i] == s[i],
        65 <= s[i] as u32 <= 90 ==> ascii_lowered(s)[i] as u32 == s[i] as u32 + 32
            && ascii_uppered(s)[i] == s[i],
        !(65 <= s[i] as u32 <= 90 || 97 <= s[i] as u32 <= 122) ==> ascii_uppered(s)[i] == s[i]
            && ascii_lowered(s)[i] == s[i],
        ascii_lower(ascii_upper(s[i])) == ascii_lower(s[i]),
        ascii_upper(ascii_lower(s[i])) == ascii_upper(s[i]),
{
}

/// A number in decimal is read back, with or without a plus sign, and a text with a character
/// that is no digit behind its first one is no number.
pub proof fn numbers_are_read_back(n: nat, s: Seq<char>, i: int)
    ensures
        number_in(decimal(n)) == Some(n),
        number_in(seq!['+'] + decimal(n)) == Some(n),
        0 < i < s.len() && !('0' <= s[i] <= '9') ==> number_in(s) is None,
        number_in(Seq::empty()) is None,
        number_in(seq!['+']) is None,
{
    decimals_spell_their_number(n);
    lemma_decimal_digits(n);
    let signed = seq!['+'] + decimal(n);
    assert(signed.skip(1) =~= decimal(n));
    assert(decimal(n)[0] != '+') by {
        assert(is_digit(decimal(n)[0]));
    }
    assert(seq!['+'].skip(1).len() == 0);
    if 0 < i < s.len() && !is_digit(s[i]) {
        assert(s.skip(1)[i - 1] == s[i]);
    }
}

proof fn lemma_decimal_digits(n: nat)
    ensures
        decimal(n).len() > 0,
        all_digits(decimal(n)),
    decreases n,
{
    if n >= 10 {
        lemma_decimal_digits(n / 10);
    }
}

/// Characters are counted part by part, and a single one counts where it is of the kind.
pub proof fn counts_add_up(a: Seq<char>, b: Seq<char>, c: char, p: spec_fn(char) -> bool)
    ensures
        count(a + b, p) == count(a, p) + count(b, p),
        count(seq![c], p) == if p(c) {
            1nat
        } else {
            0nat
        },
    decreases b.len(),
{
    assert(seq![c].drop_last().len() == 0);
    assert(count(seq![c].drop_last(), p) == 0);
    if b.len() == 0 {
        assert(a + b =~= a);
    } else {
        counts_add_up(a, b.drop_last(), c, p);
        assert((a + b).drop_last() =~= a + b.drop_last());
        assert((a + b).last() == b.last());
    }
}

} // verus!
