//! Text normalization.

use crate::strings::{
    chars_of, digit, digits_value, first_occurrence_is_replaced, is_digit, join, join_strings,
    joined_characters_alternate, lemma_prefix_len, lemma_views_push, occurs_at, prefix_len, replace,
    replaced, same, split_words, string_between, string_of_char, text_without_the_pattern_stays,
    views, words,
};
use crate::Error;
use vstd::prelude::*;

verus! {

/// The punctuation that stands for an ASCII mark in Chinese text.
pub open spec fn chinese_mark(c: char) -> char {
    if c == '(' {
        '（'
    } else if c == ')' {
        '）'
    } else if c == '[' {
        '【'
    } else if c == ']' {
        '】'
    } else if c == ',' {
        '，'
    } else {
        c
    }
}

/// The punctuation that the model knows for a Chinese mark.
pub open spec fn model_mark(c: char) -> char {
    if c == '，' || c == '、' || c == '；' || c == '：' {
        ','
    } else if c == '。' {
        '.'
    } else if c == '！' {
        '!'
    } else if c == '？' {
        '?'
    } else {
        c
    }
}

/// The numeral of an ASCII digit; other characters stay.
pub open spec fn numeral(c: char) -> char {
    if c == '0' {
        '零'
    } else if c == '1' {
        '一'
    } else if c == '2' {
        '二'
    } else if c == '3' {
        '三'
    } else if c == '4' {
        '四'
    } else if c == '5' {
        '五'
    } else if c == '6' {
        '六'
    } else if c == '7' {
        '七'
    } else if c == '8' {
        '八'
    } else if c == '9' {
        '九'
    } else {
        c
    }
}

/// A digit string as it is spoken: whole numbers below a hundred, a hundred and a thousand by
/// place value, longer strings digit by digit.
pub open spec fn number_spoken(num: Seq<char>) -> Seq<char> {
    if num == "10"@ {
        "十"@
    } else if num == "100"@ {
        "一百"@
    } else if num == "1000"@ {
        "一千"@
    } else if num.len() == 1 {
        seq![numeral(num[0])]
    } else if num.len() == 2 {
        if num[0] == '1' {
            seq!['十', numeral(num[1])]
        } else if num[1] == '0' {
            seq![numeral(num[0]), '十']
        } else {
            seq![numeral(num[0]), '十', numeral(num[1])]
        }
    } else {
        join(Seq::new(num.len(), |i: int| seq![numeral(num[i])]), " "@)
    }
}

/// Length of the digit string that a text starts with.
pub open spec fn number_len(s: Seq<char>) -> nat {
    prefix_len(s, |c: char| is_digit(c))
}

/// The text with its digit strings spoken out.
pub open spec fn numbers_spoken(s: Seq<char>) -> Seq<char>
    decreases s.len(),
{
    if s.len() == 0 {
        Seq::empty()
    } else if is_digit(s[0]) {
        proof {
            lemma_prefix_len(s, |c: char| is_digit(c));
        }
        let n = number_len(s);
        number_spoken(s.take(n as int)) + numbers_spoken(s.skip(n as int))
    } else {
        seq![s[0]] + numbers_spoken(s.skip(1))
    }
}

/// The text with abbreviations written out.
pub open spec fn abbreviations_expanded(s: Seq<char>) -> Seq<char> {
    let s = replaced(s, "Mr."@, "Mister "@);
    let s = replaced(s, "Mrs."@, "Missus "@);
    let s = replaced(s, "Dr."@, "Doctor "@);
    let s = replaced(s, "Prof."@, "Professor "@);
    let s = replaced(s, "etc."@, "et cetera "@);
    let s = replaced(s, "e.g."@, "for example "@);
    let s = replaced(s, "i.e."@, "that is "@);
    let s = replaced(s, "vs."@, "versus "@);
    let s = replaced(s, "等."@, "等等"@);
    let s = replaced(s, "例."@, "例如"@);
    s
}

/// The normalized text: single spaces, Chinese punctuation, numbers and abbreviations
/// written out.
pub open spec fn normalized(text: Seq<char>) -> Seq<char> {
    abbreviations_expanded(
        numbers_spoken(join(words(text), " "@).map_values(|c: char| chinese_mark(c))),
    )
}

/// Text normalizer.
#[derive(Debug)]
pub struct TextNormalizer {}

impl TextNormalizer {
    pub fn new() -> (r: Self)
        ensures
            r == (TextNormalizer {}),
    {
        Self {}
    }

    /// Normalizes text for synthesis.
    pub fn normalize(&self, text: &str) -> (r: Result<String, Error>)
        ensures
            r matches Ok(s) && s@ == normalized(text@),
    {
        let s = self.normalize_whitespace(text);
        let s = self.normalize_punctuation(s.as_str());
        let s = self.expand_numbers(s.as_str());
        Ok(self.expand_abbreviations(s.as_str()))
    }

    /// Reduces white space to single spaces between words.
    pub fn normalize_whitespace(&self, text: &str) -> (r: String)
        ensures
            r@ == join(words(text@), " "@),
    {
        join_strings(&split_words(text), " ")
    }

    /// Writes ASCII punctuation as Chinese punctuation.
    pub fn normalize_punctuation(&self, text: &str) -> (r: String)
        ensures
            r@ == text@.map_values(|c: char| chinese_mark(c)),
    {
        let chars = chars_of(text);
        let mut r = String::new();
        for i in 0..chars.len()
            invariant
                chars@ == text@,
                r@ == chars@.take(i as int).map_values(|c: char| chinese_mark(c)),
        {
            let c = chars[i];
            r.push(
                match c {
                    '(' => '（',
                    ')' => '）',
                    '[' => '【',
                    ']' => '】',
                    ',' => '，',
                    _ => c,
                },
            );
            assert(r@ =~= chars@.take(i + 1).map_values(|c: char| chinese_mark(c)));
        }
        assert(chars@.take(chars@.len() as int) =~= chars@);
        r
    }

    /// Writes Chinese punctuation as the punctuation of the model, character by character.
    pub fn normalize_chinese_model_text(&self, text: &str) -> (r: String)
        ensures
            r@ == text@.map_values(|c: char| model_mark(c)),
    {
        let chars = chars_of(text);
        let mut r = String::new();
        for i in 0..chars.len()
            invariant
                chars@ == text@,
                r@ == chars@.take(i as int).map_values(|c: char| model_mark(c)),
        {
            let c = chars[i];
            r.push(
                match c {
                    '，' | '、' | '；' | '：' => ',',
                    '。' => '.',
                    '！' => '!',
                    '？' => '?',
                    _ => c,
                },
            );
            assert(r@ =~= chars@.take(i + 1).map_values(|c: char| model_mark(c)));
        }
        assert(chars@.take(chars@.len() as int) =~= chars@);
        r
    }

    /// Speaks out the numbers of a text.
    pub fn expand_numbers(&self, text: &str) -> (r: String)
        ensures
            r@ == numbers_spoken(text@),
    {
        let chars = chars_of(text);
        let mut r = String::new();
        let mut i: usize = 0;
        assert(chars@.skip(0) =~= chars@);
        assert(r@ + numbers_spoken(chars@) =~= numbers_spoken(chars@));
        while i < chars.len()
            invariant
                i <= chars@.len(),
                chars@ == text@,
                r@ + numbers_spoken(chars@.skip(i as int)) == numbers_spoken(text@),
            decreases chars@.len() - i,
        {
            let ghost rest = chars@.skip(i as int);
            let ghost before = r@;
            if digit(chars[i]) {
                let start: usize = i;
                while i < chars.len() && digit(chars[i])
                    invariant
                        start <= i <= chars@.len(),
                        rest == chars@.skip(start as int),
                        number_len(rest) == i - start + number_len(chars@.skip(i as int)),
                    decreases chars@.len() - i,
                {
                    assert(chars@.skip(i as int).skip(1) =~= chars@.skip(i + 1));
                    i = i + 1;
                }
                let num = string_between(chars.as_slice(), start, i);
                assert(number_len(rest) == i - start);
                assert(num@ =~= rest.take(i - start));
                assert(rest.skip(i - start) =~= chars@.skip(i as int));
                let spoken = self.expand_number_sequence(num.as_str());
                r.push_str(spoken.as_str());
                assert(before + (spoken@ + numbers_spoken(chars@.skip(i as int))) =~= r@
                    + numbers_spoken(chars@.skip(i as int)));
            } else {
                assert(rest.skip(1) =~= chars@.skip(i + 1));
                r.push(chars[i]);
                i = i + 1;
                assert(before + (seq![rest[0]] + numbers_spoken(chars@.skip(i as int))) =~= r@
                    + numbers_spoken(chars@.skip(i as int)));
            }
        }
        assert(r@ + Seq::<char>::empty() =~= r@);
        r
    }

    /// Speaks out a digit string.
    pub fn expand_number_sequence(&self, num: &str) -> (r: String)
        ensures
            r@ == number_spoken(num@),
    {
        if same(num, "10") {
            return "十".to_owned();
        }
        if same(num, "100") {
            return "一百".to_owned();
        }
        if same(num, "1000") {
            return "一千".to_owned();
        }
        let chars = chars_of(num);
        if chars.len() == 1 || chars.len() == 2 {
            return self.expand_small_number(&chars);
        }
        let mut spoken: Vec<String> = Vec::new();
        let ghost all = Seq::new(num@.len(), |i: int| seq![numeral(num@[i])]);
        assert(views(spoken@) =~= all.take(0));
        for i in 0..chars.len()
            invariant
                chars@ == num@,
                all == Seq::new(num@.len(), |i: int| seq![numeral(num@[i])]),
                views(spoken@) == all.take(i as int),
        {
            let word = string_of_char(self.digit_to_chinese(chars[i]));
            proof {
                lemma_views_push(spoken@, word);
                assert(all.take(i + 1) =~= all.take(i as int).push(word@));
            }
            spoken.push(word);
        }
        assert(all.take(all.len() as int) =~= all);
        join_strings(&spoken, " ")
    }

    /// Speaks out a number of one or two digits by place value.
    fn expand_small_number(&self, num: &Vec<char>) -> (r: String)
        requires
            num@.len() == 1 || num@.len() == 2,
            num@ != "10"@,
            num@ != "100"@,
            num@ != "1000"@,
        ensures
            r@ == number_spoken(num@),
    {
        let mut r = String::new();
        if num.len() == 1 {
            r.push(self.digit_to_chinese(num[0]));
        } else if num[0] == '1' {
            r.push('十');
            r.push(self.digit_to_chinese(num[1]));
        } else if num[1] == '0' {
            r.push(self.digit_to_chinese(num[0]));
            r.push('十');
        } else {
            r.push(self.digit_to_chinese(num[0]));
            r.push('十');
            r.push(self.digit_to_chinese(num[1]));
        }
        assert(r@ =~= number_spoken(num@));
        r
    }

    /// The numeral of a digit.
    pub fn digit_to_chinese(&self, c: char) -> (r: char)
        ensures
            r == numeral(c),
    {
        match c {
            '0' => '零',
            '1' => '一',
            '2' => '二',
            '3' => '三',
            '4' => '四',
            '5' => '五',
            '6' => '六',
            '7' => '七',
            '8' => '八',
            '9' => '九',
            _ => c,
        }
    }

    /// Writes out common abbreviations.
    pub fn expand_abbreviations(&self, text: &str) -> (r: String)
        ensures
            r@ == abbreviations_expanded(text@),
    {
        proof {
            reveal_strlit("Mr.");
            reveal_strlit("Mrs.");
            reveal_strlit("Dr.");
            reveal_strlit("Prof.");
            reveal_strlit("etc.");
            reveal_strlit("e.g.");
            reveal_strlit("i.e.");
            reveal_strlit("vs.");
            reveal_strlit("等.");
            reveal_strlit("例.");
        }
        let s = replace(text, "Mr.", "Mister ");
        let s = replace(s.as_str(), "Mrs.", "Missus ");
        let s = replace(s.as_str(), "Dr.", "Doctor ");
        let s = replace(s.as_str(), "Prof.", "Professor ");
        let s = replace(s.as_str(), "etc.", "et cetera ");
        let s = replace(s.as_str(), "e.g.", "for example ");
        let s = replace(s.as_str(), "i.e.", "that is ");
        let s = replace(s.as_str(), "vs.", "versus ");
        let s = replace(s.as_str(), "等.", "等等");
        let s = replace(s.as_str(), "例.", "例如");
        s
    }
}

impl Default for TextNormalizer {
    fn default() -> (r: Self)
        ensures
            r == (TextNormalizer {}),
    {
        Self::new()
    }
}

/// Each digit has its numeral, and no other character is changed into one.
pub proof fn digits_have_their_numerals(c: char)
    ensures
        '0' <= c <= '9' ==> numeral(c) == "零一二三四五六七八九"@[c as int - '0' as int],
        !('0' <= c <= '9') ==> numeral(c) == c,
{
    reveal_strlit("零一二三四五六七八九");
}

/// A number of three digits or more, save a hundred and a thousand, is read digit by digit and in
/// order: the numeral of digit `i` stands at place `2 * i`, with a space between neighbours.
pub proof fn long_numbers_are_read_digit_by_digit(num: Seq<char>, i: int)
    requires
        num.len() >= 3,
        num != "100"@,
        num != "1000"@,
        0 <= i < num.len(),
        forall|k: int| 0 <= k < num.len() ==> '0' <= #[trigger] num[k] <= '9',
    ensures
        number_spoken(num).len() == 2 * num.len() - 1,
        number_spoken(num)[2 * i] == "零一二三四五六七八九"@[num[i] as int - '0' as int],
        i + 1 < num.len() ==> number_spoken(num)[2 * i + 1] == ' ',
{
    reveal_strlit("10");
    reveal_strlit(" ");
    assert("10"@.len() == 2);
    let parts = Seq::new(num.len(), |i: int| seq![numeral(num[i])]);
    joined_characters_alternate(parts, " "@, i);
    digits_have_their_numerals(num[i]);
}

/// The value of a numeral.
pub open spec fn numeral_value(c: char) -> int {
    "零一二三四五六七八九"@.index_of(c)
}

/// The value of a spoken number that has no more than ones and tens: what is before the sign for
/// ten counts the tens, one where there is nothing, and what is behind it the ones.
pub open spec fn spoken_value(s: Seq<char>) -> int {
    if s.contains('十') {
        let at = s.index_of('十');
        10 * (if at == 0 {
            1
        } else {
            numeral_value(s[at - 1])
        }) + (if at == s.len() - 1 {
            0
        } else {
            numeral_value(s[at + 1])
        })
    } else {
        numeral_value(s[0])
    }
}

proof fn lemma_numeral_value(c: char)
    requires
        '0' <= c <= '9',
    ensures
        numeral_value(numeral(c)) == c as int - '0' as int,
        numeral(c) != '十',
        numeral(c) != '百',
        numeral(c) != '千',
        !('0' <= numeral(c) <= '9'),
{
    reveal_strlit("零一二三四五六七八九");
    let all = "零一二三四五六七八九"@;
    let d = c as int - '0' as int;
    digits_have_their_numerals(c);
    assert(all[d] == numeral(c));
    assert(all.contains(numeral(c)));
    let k = all.index_of(numeral(c));
    assert(0 <= k < all.len() && all[k] == numeral(c));
    assert(all.len() == 10);
}

/// A number of one digit or two has the value that is spoken, with the sign for ten where it has
/// two digits, and with no numeral behind that sign where it ends in zero.
pub proof fn small_numbers_are_read_by_place(num: Seq<char>)
    requires
        num.len() == 1 || num.len() == 2,
        forall|k: int| 0 <= k < num.len() ==> '0' <= #[trigger] num[k] <= '9',
    ensures
        spoken_value(number_spoken(num)) == digits_value(num),
        number_spoken(num).contains('十') == (num.len() == 2),
        num.len() == 1 ==> number_spoken(num).len() == 1,
        num.len() == 2 ==> (number_spoken(num).last() == '十') == (num[1] == '0'),
        num.len() == 2 ==> (number_spoken(num)[0] == '十') == (num[0] == '1'),
        num.len() == 2 ==> number_spoken(num).len() == 1 + (if num[0] == '1' {
            0int
        } else {
            1int
        }) + (if num[1] == '0' {
            0int
        } else {
            1int
        }),
{
    reveal_strlit("10");
    reveal_strlit("100");
    reveal_strlit("1000");
    reveal_strlit("十");
    assert("100"@.len() == 3 && "1000"@.len() == 4 && "10"@.len() == 2);
    let s = number_spoken(num);
    lemma_numeral_value(num[0]);
    reveal_with_fuel(digits_value, 3);
    if num.len() == 1 {
        assert(num.drop_last().len() == 0);
        assert(s =~= seq![numeral(num[0])]);
        assert(!s.contains('十'));
    } else {
        lemma_numeral_value(num[1]);
        assert(num.drop_last().drop_last().len() == 0);
        assert(num.drop_last()[0] == num[0]);
        assert(digits_value(num) == 10 * (num[0] as int - '0' as int) + (num[1] as int
            - '0' as int));
        if num == "10"@ {
            assert(s =~= seq!['十']);
            assert(num[0] == '1' && num[1] == '0');
        } else {
            assert(!(num[0] == '1' && num[1] == '0')) by {
                if num[0] == '1' && num[1] == '0' {
                    assert(num =~= "10"@);
                }
            }
        }
        let at: int = if num[0] == '1' {
            0
        } else {
            1
        };
        assert(s[at] == '十');
        assert(s.contains('十'));
        let k = s.index_of('十');
        assert(0 <= k < s.len() && s[k] == '十');
        assert(k == at);
    }
}

/// A hundred and a thousand are read by their signs, and no other number is.
pub proof fn round_numbers_have_their_signs(num: Seq<char>)
    requires
        num.len() > 0,
        forall|k: int| 0 <= k < num.len() ==> '0' <= #[trigger] num[k] <= '9',
    ensures
        number_spoken(num).contains('百') <==> num == seq!['1', '0', '0'],
        number_spoken(num).contains('千') <==> num == seq!['1', '0', '0', '0'],
        num == seq!['1', '0', '0'] ==> number_spoken(num) == seq!['一', '百'],
        num == seq!['1', '0', '0', '0'] ==> number_spoken(num) == seq!['一', '千'],
{
    reveal_strlit("10");
    reveal_strlit("100");
    reveal_strlit("1000");
    reveal_strlit("十");
    reveal_strlit("一百");
    reveal_strlit("一千");
    reveal_strlit(" ");
    assert("100"@ =~= seq!['1', '0', '0']);
    assert("1000"@ =~= seq!['1', '0', '0', '0']);
    assert("10"@.len() == 2);
    let s = number_spoken(num);
    if num == "100"@ {
        assert(s =~= seq!['一', '百']);
        assert(s[1] == '百');
    } else if num == "1000"@ {
        assert(s =~= seq!['一', '千']);
        assert(s[1] == '千');
    } else if num.len() >= 3 {
        assert forall|j: int| 0 <= j < s.len() implies s[j] != '百' && s[j] != '千' by {
            lemma_spoken_char(num, j);
        }
    } else {
        lemma_numeral_value(num[0]);
        lemma_numeral_value(num[num.len() - 1]);
        assert forall|j: int| 0 <= j < s.len() implies s[j] != '百' && s[j] != '千' by {}
    }
}

/// What stands at each place of a long number that is spoken.
proof fn lemma_spoken_char(num: Seq<char>, j: int)
    requires
        num.len() >= 3,
        num != "100"@,
        num != "1000"@,
        forall|k: int| 0 <= k < num.len() ==> '0' <= #[trigger] num[k] <= '9',
        0 <= j < number_spoken(num).len(),
    ensures
        number_spoken(num)[j] != '百' && number_spoken(num)[j] != '千',
        !('0' <= number_spoken(num)[j] <= '9'),
{
    long_numbers_are_read_digit_by_digit(num, 0);
    let i = j / 2;
    long_numbers_are_read_digit_by_digit(num, i);
    digits_have_their_numerals(num[i]);
    lemma_numeral_value(num[i]);
    if j % 2 == 0 {
        assert(j == 2 * i);
    } else {
        assert(j == 2 * i + 1);
    }
}

proof fn lemma_number_len_stops(num: Seq<char>, after: Seq<char>)
    requires
        forall|k: int| 0 <= k < num.len() ==> '0' <= #[trigger] num[k] <= '9',
        after.len() > 0 ==> !('0' <= after[0] <= '9'),
    ensures
        number_len(num + after) == num.len(),
    decreases num.len(),
{
    if num.len() > 0 {
        assert forall|k: int| 0 <= k < num.skip(1).len() implies '0' <= #[trigger] num.skip(1)[k]
            <= '9' by {
            assert('0' <= num[k + 1] <= '9');
        }
        lemma_number_len_stops(num.skip(1), after);
        assert((num + after).skip(1) =~= num.skip(1) + after);
        assert('0' <= num[0] <= '9');
    } else {
        assert(num + after =~= after);
    }
}

/// How long the number is that a text begins with stays where the text goes on behind it.
proof fn lemma_number_len_keeps(before: Seq<char>, more: Seq<char>)
    requires
        before.len() > 0,
        !is_digit(before.last()),
    ensures
        number_len(before + more) == number_len(before),
        number_len(before) < before.len(),
    decreases before.len(),
{
    if is_digit(before[0]) {
        assert(before.skip(1).last() == before.last());
        lemma_number_len_keeps(before.skip(1), more);
        assert((before + more).skip(1) =~= before.skip(1) + more);
    }
}

/// A number is spoken where it stands: what is before it and what is behind it are spoken as they
/// would be alone.
pub proof fn numbers_are_spoken_in_place(before: Seq<char>, num: Seq<char>, after: Seq<char>)
    requires
        num.len() > 0,
        forall|k: int| 0 <= k < num.len() ==> '0' <= #[trigger] num[k] <= '9',
        before.len() > 0 ==> !('0' <= before.last() <= '9'),
        after.len() > 0 ==> !('0' <= after[0] <= '9'),
    ensures
        numbers_spoken(before + num + after) == numbers_spoken(before) + number_spoken(num)
            + numbers_spoken(after),
    decreases before.len(),
{
    let s = before + num + after;
    if before.len() == 0 {
        assert(s =~= num + after);
        lemma_number_len_stops(num, after);
        assert('0' <= num[0] <= '9');
        assert(s.take(num.len() as int) =~= num);
        assert(s.skip(num.len() as int) =~= after);
        assert(numbers_spoken(before) + number_spoken(num) =~= number_spoken(num));
    } else if is_digit(before[0]) {
        lemma_number_len_keeps(before, num + after);
        assert(s =~= before + (num + after));
        let n = number_len(before);
        assert(n > 0);
        let rest = before.skip(n as int);
        assert(rest.last() == before.last());
        numbers_are_spoken_in_place(rest, num, after);
        assert(s.take(n as int) =~= before.take(n as int));
        assert(s.skip(n as int) =~= rest + num + after);
        assert(number_spoken(before.take(n as int)) + (numbers_spoken(rest) + number_spoken(num)
            + numbers_spoken(after)) =~= number_spoken(before.take(n as int)) + numbers_spoken(rest)
            + number_spoken(num) + numbers_spoken(after));
    } else {
        let rest = before.skip(1);
        if rest.len() > 0 {
            assert(rest.last() == before.last());
        }
        numbers_are_spoken_in_place(rest, num, after);
        assert(s.skip(1) =~= rest + num + after);
        assert(seq![before[0]] + (numbers_spoken(rest) + number_spoken(num) + numbers_spoken(after))
            =~= seq![before[0]] + numbers_spoken(rest) + number_spoken(num) + numbers_spoken(
            after,
        ));
    }
}

/// A text without digits holds no number and stays as it is.
pub proof fn text_without_digits_stays(s: Seq<char>)
    requires
        forall|i: int| 0 <= i < s.len() ==> !('0' <= #[trigger] s[i] <= '9'),
    ensures
        numbers_spoken(s) == s,
    decreases s.len(),
{
    if s.len() > 0 {
        assert(!('0' <= s[0] <= '9'));
        assert forall|i: int| 0 <= i < s.skip(1).len() implies !('0' <= #[trigger] s.skip(1)[i]
            <= '9') by {
            assert(!('0' <= s[i + 1] <= '9'));
        }
        text_without_digits_stays(s.skip(1));
        assert(seq![s[0]] + s.skip(1) =~= s);
    }
}

proof fn lemma_spoken_has_no_digit(num: Seq<char>, j: int)
    requires
        num.len() > 0,
        forall|k: int| 0 <= k < num.len() ==> '0' <= #[trigger] num[k] <= '9',
        0 <= j < number_spoken(num).len(),
    ensures
        !('0' <= number_spoken(num)[j] <= '9'),
{
    reveal_strlit("10");
    reveal_strlit("100");
    reveal_strlit("1000");
    reveal_strlit("十");
    reveal_strlit("一百");
    reveal_strlit("一千");
    assert("100"@.len() == 3 && "1000"@.len() == 4 && "10"@.len() == 2);
    if num.len() >= 3 && num != "100"@ && num != "1000"@ {
        lemma_spoken_char(num, j);
    } else {
        lemma_numeral_value(num[0]);
        lemma_numeral_value(num[num.len() - 1]);
    }
}

proof fn lemma_number_prefix(s: Seq<char>)
    ensures
        number_len(s) <= s.len(),
        forall|k: int| 0 <= k < number_len(s) ==> '0' <= #[trigger] s[k] <= '9',
        s.len() > 0 && is_digit(s[0]) ==> number_len(s) > 0,
    decreases s.len(),
{
    if s.len() > 0 && is_digit(s[0]) {
        lemma_number_prefix(s.skip(1));
        assert forall|k: int| 0 <= k < number_len(s) implies '0' <= #[trigger] s[k] <= '9' by {
            if k > 0 {
                assert('0' <= s.skip(1)[k - 1] <= '9');
            }
        }
    }
}

/// No digit is left in a text whose numbers are spoken.
pub proof fn every_number_is_spoken(s: Seq<char>, j: int)
    requires
        0 <= j < numbers_spoken(s).len(),
    ensures
        !('0' <= numbers_spoken(s)[j] <= '9'),
    decreases s.len(),
{
    if s.len() > 0 && is_digit(s[0]) {
        lemma_number_prefix(s);
        let n = number_len(s);
        let num = s.take(n as int);
        assert forall|k: int| 0 <= k < num.len() implies '0' <= #[trigger] num[k] <= '9' by {
            assert('0' <= s[k] <= '9');
        }
        let spoken = number_spoken(num);
        if j < spoken.len() {
            lemma_spoken_has_no_digit(num, j);
        } else {
            every_number_is_spoken(s.skip(n as int), j - spoken.len());
        }
    } else if s.len() > 0 && j > 0 {
        every_number_is_spoken(s.skip(1), j - 1);
    }
}

/// The marks of the model by code points: commas for the Chinese comma, the enumeration comma,
/// the semicolon and the colon, a full stop, an exclamation mark and a question mark for the
/// Chinese ones; every other character stays.
pub proof fn marks_of_the_model(c: char)
    ensures
        c as u32 == 0xFF0C || c as u32 == 0x3001 || c as u32 == 0xFF1B || c as u32 == 0xFF1A
            ==> model_mark(c) == ',',
        c as u32 == 0x3002 ==> model_mark(c) == '.',
        c as u32 == 0xFF01 ==> model_mark(c) == '!',
        c as u32 == 0xFF1F ==> model_mark(c) == '?',
        !(c as u32 == 0xFF0C || c as u32 == 0x3001 || c as u32 == 0xFF1B || c as u32 == 0xFF1A
            || c as u32 == 0x3002 || c as u32 == 0xFF01 || c as u32 == 0xFF1F) ==> model_mark(c)
            == c,
{
}

/// The Chinese marks by code points: brackets and commas get their wide forms, every other
/// character stays.
pub proof fn marks_of_chinese_text(c: char)
    ensures
        c as u32 == 0x28 ==> chinese_mark(c) as u32 == 0xFF08,
        c as u32 == 0x29 ==> chinese_mark(c) as u32 == 0xFF09,
        c as u32 == 0x5B ==> chinese_mark(c) as u32 == 0x3010,
        c as u32 == 0x5D ==> chinese_mark(c) as u32 == 0x3011,
        c as u32 == 0x2C ==> chinese_mark(c) as u32 == 0xFF0C,
        !(c as u32 == 0x28 || c as u32 == 0x29 || c as u32 == 0x5B || c as u32 == 0x5D || c as u32
            == 0x2C) ==> chinese_mark(c) == c,
{
}

/// Whether an abbreviation does not end with the point at a place.
spec fn ends_elsewhere(s: Seq<char>, pat: Seq<char>, i: int) -> bool {
    ||| i < pat.len() - 1
    ||| s[i - 1] != pat[pat.len() - 2]
    ||| pat.len() >= 3 && s[i - 2] != pat[pat.len() - 3]
}

proof fn lemma_absent(s: Seq<char>, pat: Seq<char>, with: Seq<char>)
    requires
        pat.len() >= 2,
        pat.last() == '.',
        forall|i: int| 0 <= i < s.len() && #[trigger] s[i] == '.' ==> ends_elsewhere(s, pat, i),
    ensures
        replaced(s, pat, with) == s,
{
    assert forall|at: int| !occurs_at(s, pat, at) by {
        if occurs_at(s, pat, at) {
            let part = s.subrange(at, at + pat.len());
            let i = at + pat.len() - 1;
            assert(part[pat.len() - 1] == s[i]);
            assert(part[pat.len() - 2] == s[i - 1]);
            if pat.len() >= 3 {
                assert(part[pat.len() - 3] == s[i - 2]);
            }
            assert(ends_elsewhere(s, pat, i));
        }
    }
    text_without_the_pattern_stays(s, pat, with);
}

proof fn lemma_no_point(s: Seq<char>, pat: Seq<char>, with: Seq<char>)
    requires
        pat.len() >= 2,
        pat.last() == '.',
        !s.contains('.'),
    ensures
        replaced(s, pat, with) == s,
{
    assert forall|i: int| 0 <= i < s.len() && #[trigger] s[i] == '.' implies ends_elsewhere(
        s,
        pat,
        i,
    ) by {
        assert(s.contains(s[i]));
    }
    lemma_absent(s, pat, with);
}

proof fn lemma_no_point_between(a: Seq<char>, with: Seq<char>, b: Seq<char>)
    requires
        !a.contains('.'),
        !with.contains('.'),
        !b.contains('.'),
    ensures
        !(a + with + b).contains('.'),
{
    let s = a + with + b;
    if s.contains('.') {
        let i = s.index_of('.');
        if i < a.len() {
            assert(a[i] == '.');
        } else if i < a.len() + with.len() {
            assert(with[i - a.len()] == '.');
        } else {
            assert(b[i - a.len() - with.len()] == '.');
        }
    }
}

proof fn lemma_points(a: Seq<char>, pat: Seq<char>, b: Seq<char>, i: int)
    requires
        !a.contains('.'),
        !b.contains('.'),
        0 <= i < (a + pat + b).len(),
        (a + pat + b)[i] == '.',
    ensures
        a.len() <= i < a.len() + pat.len(),
        pat[i - a.len()] == '.',
{
    let s = a + pat + b;
    if i < a.len() {
        assert(a[i] == '.');
    } else if i >= a.len() + pat.len() {
        assert(b[i - a.len() - pat.len()] == '.');
    }
}

proof fn lemma_mister(a: Seq<char>, b: Seq<char>)
    requires
        !a.contains('.'),
        !b.contains('.'),
    ensures
        abbreviations_expanded(a + "Mr."@ + b) == a + "Mister "@ + b,
{
    reveal_strlit("Mr.");
    reveal_strlit("Mister ");
    let pat = "Mr."@;
    let with = "Mister "@;
    let s = a + pat + b;
    let n = a.len() as int;
    assert(pat.len() == 3);
    assert(pat[0] == 'M');
    assert(pat[1] == 'r');
    assert(pat[2] == '.');
    assert(with.len() == 7);
    assert(with[0] == 'M');
    assert(with[1] == 'i');
    assert(with[2] == 's');
    assert(with[3] == 't');
    assert(with[4] == 'e');
    assert(with[5] == 'r');
    assert(with[6] == ' ');
    assert(s[n + 0] == 'M');
    assert(s[n + 1] == 'r');
    assert(s[n + 2] == '.');
    if n > 0 {
        assert(s[n - 1] == a[n - 1]);
        assert(a.contains(a[n - 1]));
    }
    assert forall|at: int| 0 <= at < a.len() implies !occurs_at(s, pat, at) by {
        if occurs_at(s, pat, at) {
            let part = s.subrange(at, at + pat.len());
            assert(part[2] == s[at + 2]);
            lemma_points(a, pat, b, at + 2);
        }
    }
    first_occurrence_is_replaced(a, pat, with, b);
    lemma_no_point(b, pat, with);
    assert(!with.contains('.')) by {
        if with.contains('.') {
            let i = with.index_of('.');
            assert(with[i] == ' ' || with[i] == 'M' || with[i] == 'e' || with[i] == 'i' || with[i] == 'r' || with[i] == 's' || with[i] == 't');
        }
    }
    lemma_no_point_between(a, with, b);
    let t = a + with + b;
    reveal_strlit("Mrs.");
    assert("Mrs."@.len() == 4 && "Mrs."@.last() == '.');
    lemma_no_point(t, "Mrs."@, "Missus "@);
    reveal_strlit("Dr.");
    assert("Dr."@.len() == 3 && "Dr."@.last() == '.');
    lemma_no_point(t, "Dr."@, "Doctor "@);
    reveal_strlit("Prof.");
    assert("Prof."@.len() == 5 && "Prof."@.last() == '.');
    lemma_no_point(t, "Prof."@, "Professor "@);
    reveal_strlit("etc.");
    assert("etc."@.len() == 4 && "etc."@.last() == '.');
    lemma_no_point(t, "etc."@, "et cetera "@);
    reveal_strlit("e.g.");
    assert("e.g."@.len() == 4 && "e.g."@.last() == '.');
    lemma_no_point(t, "e.g."@, "for example "@);
    reveal_strlit("i.e.");
    assert("i.e."@.len() == 4 && "i.e."@.last() == '.');
    lemma_no_point(t, "i.e."@, "that is "@);
    reveal_strlit("vs.");
    assert("vs."@.len() == 3 && "vs."@.last() == '.');
    lemma_no_point(t, "vs."@, "versus "@);
    reveal_strlit("等.");
    assert("等."@.len() == 2 && "等."@.last() == '.');
    lemma_no_point(t, "等."@, "等等"@);
    reveal_strlit("例.");
    assert("例."@.len() == 2 && "例."@.last() == '.');
    lemma_no_point(t, "例."@, "例如"@);
}

proof fn lemma_missus(a: Seq<char>, b: Seq<char>)
    requires
        !a.contains('.'),
        !b.contains('.'),
    ensures
        abbreviations_expanded(a + "Mrs."@ + b) == a + "Missus "@ + b,
{
    reveal_strlit("Mrs.");
    reveal_strlit("Missus ");
    let pat = "Mrs."@;
    let with = "Missus "@;
    let s = a + pat + b;
    let n = a.len() as int;
    assert(pat.len() == 4);
    assert(pat[0] == 'M');
    assert(pat[1] == 'r');
    assert(pat[2] == 's');
    assert(pat[3] == '.');
    assert(with.len() == 7);
    assert(with[0] == 'M');
    assert(with[1] == 'i');
    assert(with[2] == 's');
    assert(with[3] == 's');
    assert(with[4] == 'u');
    assert(with[5] == 's');
    assert(with[6] == ' ');
    assert(s[n + 0] == 'M');
    assert(s[n + 1] == 'r');
    assert(s[n + 2] == 's');
    assert(s[n + 3] == '.');
    if n > 0 {
        assert(s[n - 1] == a[n - 1]);
        assert(a.contains(a[n - 1]));
    }
    reveal_strlit("Mr.");
    assert("Mr."@.len() == 3);
    assert("Mr."@[0] == 'M');
    assert("Mr."@[1] == 'r');
    assert("Mr."@[2] == '.');
    assert forall|i: int| 0 <= i < s.len() && #[trigger] s[i] == '.' implies ends_elsewhere(
        s,
        "Mr."@,
        i,
    ) by {
        lemma_points(a, pat, b, i);
    }
    lemma_absent(s, "Mr."@, "Mister "@);
    assert forall|at: int| 0 <= at < a.len() implies !occurs_at(s, pat, at) by {
        if occurs_at(s, pat, at) {
            let part = s.subrange(at, at + pat.len());
            assert(part[3] == s[at + 3]);
            lemma_points(a, pat, b, at + 3);
        }
    }
    first_occurrence_is_replaced(a, pat, with, b);
    lemma_no_point(b, pat, with);
    assert(!with.contains('.')) by {
        if with.contains('.') {
            let i = with.index_of('.');
            assert(with[i] == ' ' || with[i] == 'M' || with[i] == 'i' || with[i] == 's' || with[i] == 'u');
        }
    }
    lemma_no_point_between(a, with, b);
    let t = a + with + b;
    reveal_strlit("Dr.");
    assert("Dr."@.len() == 3 && "Dr."@.last() == '.');
    lemma_no_point(t, "Dr."@, "Doctor "@);
    reveal_strlit("Prof.");
    assert("Prof."@.len() == 5 && "Prof."@.last() == '.');
    lemma_no_point(t, "Prof."@, "Professor "@);
    reveal_strlit("etc.");
    assert("etc."@.len() == 4 && "etc."@.last() == '.');
    lemma_no_point(t, "etc."@, "et cetera "@);
    reveal_strlit("e.g.");
    assert("e.g."@.len() == 4 && "e.g."@.last() == '.');
    lemma_no_point(t, "e.g."@, "for example "@);
    reveal_strlit("i.e.");
    assert("i.e."@.len() == 4 && "i.e."@.last() == '.');
    lemma_no_point(t, "i.e."@, "that is "@);
    reveal_strlit("vs.");
    assert("vs."@.len() == 3 && "vs."@.last() == '.');
    lemma_no_point(t, "vs."@, "versus "@);
    reveal_strlit("等.");
    assert("等."@.len() == 2 && "等."@.last() == '.');
    lemma_no_point(t, "等."@, "等等"@);
    reveal_strlit("例.");
    assert("例."@.len() == 2 && "例."@.last() == '.');
    lemma_no_point(t, "例."@, "例如"@);
}

proof fn lemma_doctor(a: Seq<char>, b: Seq<char>)
    requires
        !a.contains('.'),
        !b.contains('.'),
    ensures
        abbreviations_expanded(a + "Dr."@ + b) == a + "Doctor "@ + b,
{
    reveal_strlit("Dr.");
    reveal_strlit("Doctor ");
    let pat = "Dr."@;
    let with = "Doctor "@;
    let s = a + pat + b;
    let n = a.len() as int;
    assert(pat.len() == 3);
    assert(pat[0] == 'D');
    assert(pat[1] == 'r');
    assert(pat[2] == '.');
    assert(with.len() == 7);
    assert(with[0] == 'D');
    assert(with[1] == 'o');
    assert(with[2] == 'c');
    assert(with[3] == 't');
    assert(with[4] == 'o');
    assert(with[5] == 'r');
    assert(with[6] == ' ');
    assert(s[n + 0] == 'D');
    assert(s[n + 1] == 'r');
    assert(s[n + 2] == '.');
    if n > 0 {
        assert(s[n - 1] == a[n - 1]);
        assert(a.contains(a[n - 1]));
    }
    reveal_strlit("Mr.");
    assert("Mr."@.len() == 3);
    assert("Mr."@[0] == 'M');
    assert("Mr."@[1] == 'r');
    assert("Mr."@[2] == '.');
    assert forall|i: int| 0 <= i < s.len() && #[trigger] s[i] == '.' implies ends_elsewhere(
        s,
        "Mr."@,
        i,
    ) by {
        lemma_points(a, pat, b, i);
    }
    lemma_absent(s, "Mr."@, "Mister "@);
    reveal_strlit("Mrs.");
    assert("Mrs."@.len() == 4);
    assert("Mrs."@[0] == 'M');
    assert("Mrs."@[1] == 'r');
    assert("Mrs."@[2] == 's');
    assert("Mrs."@[3] == '.');
    assert forall|i: int| 0 <= i < s.len() && #[trigger] s[i] == '.' implies ends_elsewhere(
        s,
        "Mrs."@,
        i,
    ) by {
        lemma_points(a, pat, b, i);
    }
    lemma_absent(s, "Mrs."@, "Missus "@);
    assert forall|at: int| 0 <= at < a.len() implies !occurs_at(s, pat, at) by {
        if occurs_at(s, pat, at) {
            let part = s.subrange(at, at + pat.len());
            assert(part[2] == s[at + 2]);
            lemma_points(a, pat, b, at + 2);
        }
    }
    first_occurrence_is_replaced(a, pat, with, b);
    lemma_no_point(b, pat, with);
    assert(!with.contains('.')) by {
        if with.contains('.') {
            let i = with.index_of('.');
            assert(with[i] == ' ' || with[i] == 'D' || with[i] == 'c' || with[i] == 'o' || with[i] == 'r' || with[i] == 't');
        }
    }
    lemma_no_point_between(a, with, b);
    let t = a + with + b;
    reveal_strlit("Prof.");
    assert("Prof."@.len() == 5 && "Prof."@.last() == '.');
    lemma_no_point(t, "Prof."@, "Professor "@);
    reveal_strlit("etc.");
    assert("etc."@.len() == 4 && "etc."@.last() == '.');
    lemma_no_point(t, "etc."@, "et cetera "@);
    reveal_strlit("e.g.");
    assert("e.g."@.len() == 4 && "e.g."@.last() == '.');
    lemma_no_point(t, "e.g."@, "for example "@);
    reveal_strlit("i.e.");
    assert("i.e."@.len() == 4 && "i.e."@.last() == '.');
    lemma_no_point(t, "i.e."@, "that is "@);
    reveal_strlit("vs.");
    assert("vs."@.len() == 3 && "vs."@.last() == '.');
    lemma_no_point(t, "vs."@, "versus "@);
    reveal_strlit("等.");
    assert("等."@.len() == 2 && "等."@.last() == '.');
    lemma_no_point(t, "等."@, "等等"@);
    reveal_strlit("例.");
    assert("例."@.len() == 2 && "例."@.last() == '.');
    lemma_no_point(t, "例."@, "例如"@);
}

proof fn lemma_professor(a: Seq<char>, b: Seq<char>)
    requires
        !a.contains('.'),
        !b.contains('.'),
    ensures
        abbreviations_expanded(a + "Prof."@ + b) == a + "Professor "@ + b,
{
    reveal_strlit("Prof.");
    reveal_strlit("Professor ");
    let pat = "Prof."@;
    let with = "Professor "@;
    let s = a + pat + b;
    let n = a.len() as int;
    assert(pat.len() == 5);
    assert(pat[0] == 'P');
    assert(pat[1] == 'r');
    assert(pat[2] == 'o');
    assert(pat[3] == 'f');
    assert(pat[4] == '.');
    assert(with.len() == 10);
    assert(with[0] == 'P');
    assert(with[1] == 'r');
    assert(with[2] == 'o');
    assert(with[3] == 'f');
    assert(with[4] == 'e');
    assert(with[5] == 's');
    assert(with[6] == 's');
    assert(with[7] == 'o');
    assert(with[8] == 'r');
    assert(with[9] == ' ');
    assert(s[n + 0] == 'P');
    assert(s[n + 1] == 'r');
    assert(s[n + 2] == 'o');
    assert(s[n + 3] == 'f');
    assert(s[n + 4] == '.');
    if n > 0 {
        assert(s[n - 1] == a[n - 1]);
        assert(a.contains(a[n - 1]));
    }
    reveal_strlit("Mr.");
    assert("Mr."@.len() == 3);
    assert("Mr."@[0] == 'M');
    assert("Mr."@[1] == 'r');
    assert("Mr."@[2] == '.');
    assert forall|i: int| 0 <= i < s.len() && #[trigger] s[i] == '.' implies ends_elsewhere(
        s,
        "Mr."@,
        i,
    ) by {
        lemma_points(a, pat, b, i);
    }
    lemma_absent(s, "Mr."@, "Mister "@);
    reveal_strlit("Mrs.");
    assert("Mrs."@.len() == 4);
    assert("Mrs."@[0] == 'M');
    assert("Mrs."@[1] == 'r');
    assert("Mrs."@[2] == 's');
    assert("Mrs."@[3] == '.');
    assert forall|i: int| 0 <= i < s.len() && #[trigger] s[i] == '.' implies ends_elsewhere(
        s,
        "Mrs."@,
        i,
    ) by {
        lemma_points(a, pat, b, i);
    }
    lemma_absent(s, "Mrs."@, "Missus "@);
    reveal_strlit("Dr.");
    assert("Dr."@.len() == 3);
    assert("Dr."@[0] == 'D');
    assert("Dr."@[1] == 'r');
    assert("Dr."@[2] == '.');
    assert forall|i: int| 0 <= i < s.len() && #[trigger] s[i] == '.' implies ends_elsewhere(
        s,
        "Dr."@,
        i,
    ) by {
        lemma_points(a, pat, b, i);
    }
    lemma_absent(s, "Dr."@, "Doctor "@);
    assert forall|at: int| 0 <= at < a.len() implies !occurs_at(s, pat, at) by {
        if occurs_at(s, pat, at) {
            let part = s.subrange(at, at + pat.len());
            assert(part[4] == s[at + 4]);
            lemma_points(a, pat, b, at + 4);
        }
    }
    first_occurrence_is_replaced(a, pat, with, b);
    lemma_no_point(b, pat, with);
    assert(!with.contains('.')) by {
        if with.contains('.') {
            let i = with.index_of('.');
            assert(with[i] == ' ' || with[i] == 'P' || with[i] == 'e' || with[i] == 'f' || with[i] == 'o' || with[i] == 'r' || with[i] == 's');
        }
    }
    lemma_no_point_between(a, with, b);
    let t = a + with + b;
    reveal_strlit("etc.");
    assert("etc."@.len() == 4 && "etc."@.last() == '.');
    lemma_no_point(t, "etc."@, "et cetera "@);
    reveal_strlit("e.g.");
    assert("e.g."@.len() == 4 && "e.g."@.last() == '.');
    lemma_no_point(t, "e.g."@, "for example "@);
    reveal_strlit("i.e.");
    assert("i.e."@.len() == 4 && "i.e."@.last() == '.');
    lemma_no_point(t, "i.e."@, "that is "@);
    reveal_strlit("vs.");
    assert("vs."@.len() == 3 && "vs."@.last() == '.');
    lemma_no_point(t, "vs."@, "versus "@);
    reveal_strlit("等.");
    assert("等."@.len() == 2 && "等."@.last() == '.');
    lemma_no_point(t, "等."@, "等等"@);
    reveal_strlit("例.");
    assert("例."@.len() == 2 && "例."@.last() == '.');
    lemma_no_point(t, "例."@, "例如"@);
}

proof fn lemma_et_cetera(a: Seq<char>, b: Seq<char>)
    requires
        !a.contains('.'),
        !b.contains('.'),
    ensures
        abbreviations_expanded(a + "etc."@ + b) == a + "et cetera "@ + b,
{
    reveal_strlit("etc.");
    reveal_strlit("et cetera ");
    let pat = "etc."@;
    let with = "et cetera "@;
    let s = a + pat + b;
    let n = a.len() as int;
    assert(pat.len() == 4);
    assert(pat[0] == 'e');
    assert(pat[1] == 't');
    assert(pat[2] == 'c');
    assert(pat[3] == '.');
    assert(with.len() == 10);
    assert(with[0] == 'e');
    assert(with[1] == 't');
    assert(with[2] == ' ');
    assert(with[3] == 'c');
    assert(with[4] == 'e');
    assert(with[5] == 't');
    assert(with[6] == 'e');
    assert(with[7] == 'r');
    assert(with[8] == 'a');
    assert(with[9] == ' ');
    assert(s[n + 0] == 'e');
    assert(s[n + 1] == 't');
    assert(s[n + 2] == 'c');
    assert(s[n + 3] == '.');
    if n > 0 {
        assert(s[n - 1] == a[n - 1]);
        assert(a.contains(a[n - 1]));
    }
    reveal_strlit("Mr.");
    assert("Mr."@.len() == 3);
    assert("Mr."@[0] == 'M');
    assert("Mr."@[1] == 'r');
    assert("Mr."@[2] == '.');
    assert forall|i: int| 0 <= i < s.len() && #[trigger] s[i] == '.' implies ends_elsewhere(
        s,
        "Mr."@,
        i,
    ) by {
        lemma_points(a, pat, b, i);
    }
    lemma_absent(s, "Mr."@, "Mister "@);
    reveal_strlit("Mrs.");
    assert("Mrs."@.len() == 4);
    assert("Mrs."@[0] == 'M');
    assert("Mrs."@[1] == 'r');
    assert("Mrs."@[2] == 's');
    assert("Mrs."@[3] == '.');
    assert forall|i: int| 0 <= i < s.len() && #[trigger] s[i] == '.' implies ends_elsewhere(
        s,
        "Mrs."@,
        i,
    ) by {
        lemma_points(a, pat, b, i);
    }
    lemma_absent(s, "Mrs."@, "Missus "@);
    reveal_strlit("Dr.");
    assert("Dr."@.len() == 3);
    assert("Dr."@[0] == 'D');
    assert("Dr."@[1] == 'r');
    assert("Dr."@[2] == '.');
    assert forall|i: int| 0 <= i < s.len() && #[trigger] s[i] == '.' implies ends_elsewhere(
        s,
        "Dr."@,
        i,
    ) by {
        lemma_points(a, pat, b, i);
    }
    lemma_absent(s, "Dr."@, "Doctor "@);
    reveal_strlit("Prof.");
    assert("Prof."@.len() == 5);
    assert("Prof."@[0] == 'P');
    assert("Prof."@[1] == 'r');
    assert("Prof."@[2] == 'o');
    assert("Prof."@[3] == 'f');
    assert("Prof."@[4] == '.');
    assert forall|i: int| 0 <= i < s.len() && #[trigger] s[i] == '.' implies ends_elsewhere(
        s,
        "Prof."@,
        i,
    ) by {
        lemma_points(a, pat, b, i);
    }
    lemma_absent(s, "Prof."@, "Professor "@);
    assert forall|at: int| 0 <= at < a.len() implies !occurs_at(s, pat, at) by {
        if occurs_at(s, pat, at) {
            let part = s.subrange(at, at + pat.len());
            assert(part[3] == s[at + 3]);
            lemma_points(a, pat, b, at + 3);
        }
    }
    first_occurrence_is_replaced(a, pat, with, b);
    lemma_no_point(b, pat, with);
    assert(!with.contains('.')) by {
        if with.contains('.') {
            let i = with.index_of('.');
            assert(with[i] == ' ' || with[i] == 'a' || with[i] == 'c' || with[i] == 'e' || with[i] == 'r' || with[i] == 't');
        }
    }
    lemma_no_point_between(a, with, b);
    let t = a + with + b;
    reveal_strlit("e.g.");
    assert("e.g."@.len() == 4 && "e.g."@.last() == '.');
    lemma_no_point(t, "e.g."@, "for example "@);
    reveal_strlit("i.e.");
    assert("i.e."@.len() == 4 && "i.e."@.last() == '.');
    lemma_no_point(t, "i.e."@, "that is "@);
    reveal_strlit("vs.");
    assert("vs."@.len() == 3 && "vs."@.last() == '.');
    lemma_no_point(t, "vs."@, "versus "@);
    reveal_strlit("等.");
    assert("等."@.len() == 2 && "等."@.last() == '.');
    lemma_no_point(t, "等."@, "等等"@);
    reveal_strlit("例.");
    assert("例."@.len() == 2 && "例."@.last() == '.');
    lemma_no_point(t, "例."@, "例如"@);
}

proof fn lemma_for_example(a: Seq<char>, b: Seq<char>)
    requires
        !a.contains('.'),
        !b.contains('.'),
    ensures
        abbreviations_expanded(a + "e.g."@ + b) == a + "for example "@ + b,
{
    reveal_strlit("e.g.");
    reveal_strlit("for example ");
    let pat = "e.g."@;
    let with = "for example "@;
    let s = a + pat + b;
    let n = a.len() as int;
    assert(pat.len() == 4);
    assert(pat[0] == 'e');
    assert(pat[1] == '.');
    assert(pat[2] == 'g');
    assert(pat[3] == '.');
    assert(with.len() == 12);
    assert(with[0] == 'f');
    assert(with[1] == 'o');
    assert(with[2] == 'r');
    assert(with[3] == ' ');
    assert(with[4] == 'e');
    assert(with[5] == 'x');
    assert(with[6] == 'a');
    assert(with[7] == 'm');
    assert(with[8] == 'p');
    assert(with[9] == 'l');
    assert(with[10] == 'e');
    assert(with[11] == ' ');
    assert(s[n + 0] == 'e');
    assert(s[n + 1] == '.');
    assert(s[n + 2] == 'g');
    assert(s[n + 3] == '.');
    if n > 0 {
        assert(s[n - 1] == a[n - 1]);
        assert(a.contains(a[n - 1]));
    }
    reveal_strlit("Mr.");
    assert("Mr."@.len() == 3);
    assert("Mr."@[0] == 'M');
    assert("Mr."@[1] == 'r');
    assert("Mr."@[2] == '.');
    assert forall|i: int| 0 <= i < s.len() && #[trigger] s[i] == '.' implies ends_elsewhere(
        s,
        "Mr."@,
        i,
    ) by {
        lemma_points(a, pat, b, i);
    }
    lemma_absent(s, "Mr."@, "Mister "@);
    reveal_strlit("Mrs.");
    assert("Mrs."@.len() == 4);
    assert("Mrs."@[0] == 'M');
    assert("Mrs."@[1] == 'r');
    assert("Mrs."@[2] == 's');
    assert("Mrs."@[3] == '.');
    assert forall|i: int| 0 <= i < s.len() && #[trigger] s[i] == '.' implies ends_elsewhere(
        s,
        "Mrs."@,
        i,
    ) by {
        lemma_points(a, pat, b, i);
    }
    lemma_absent(s, "Mrs."@, "Missus "@);
    reveal_strlit("Dr.");
    assert("Dr."@.len() == 3);
    assert("Dr."@[0] == 'D');
    assert("Dr."@[1] == 'r');
    assert("Dr."@[2] == '.');
    assert forall|i: int| 0 <= i < s.len() && #[trigger] s[i] == '.' implies ends_elsewhere(
        s,
        "Dr."@,
        i,
    ) by {
        lemma_points(a, pat, b, i);
    }
    lemma_absent(s, "Dr."@, "Doctor "@);
    reveal_strlit("Prof.");
    assert("Prof."@.len() == 5);
    assert("Prof."@[0] == 'P');
    assert("Prof."@[1] == 'r');
    assert("Prof."@[2] == 'o');
    assert("Prof."@[3] == 'f');
    assert("Prof."@[4] == '.');
    assert forall|i: int| 0 <= i < s.len() && #[trigger] s[i] == '.' implies ends_elsewhere(
        s,
        "Prof."@,
        i,
    ) by {
        lemma_points(a, pat, b, i);
    }
    lemma_absent(s, "Prof."@, "Professor "@);
    reveal_strlit("etc.");
    assert("etc."@.len() == 4);
    assert("etc."@[0] == 'e');
    assert("etc."@[1] == 't');
    assert("etc."@[2] == 'c');
    assert("etc."@[3] == '.');
    assert forall|i: int| 0 <= i < s.len() && #[trigger] s[i] == '.' implies ends_elsewhere(
        s,
        "etc."@,
        i,
    ) by {
        lemma_points(a, pat, b, i);
    }
    lemma_absent(s, "etc."@, "et cetera "@);
    assert forall|at: int| 0 <= at < a.len() implies !occurs_at(s, pat, at) by {
        if occurs_at(s, pat, at) {
            let part = s.subrange(at, at + pat.len());
            assert(part[1] == s[at + 1]);
            lemma_points(a, pat, b, at + 1);
            assert(part[3] == s[at + 3]);
            lemma_points(a, pat, b, at + 3);
        }
    }
    first_occurrence_is_replaced(a, pat, with, b);
    lemma_no_point(b, pat, with);
    assert(!with.contains('.')) by {
        if with.contains('.') {
            let i = with.index_of('.');
            assert(with[i] == ' ' || with[i] == 'a' || with[i] == 'e' || with[i] == 'f' || with[i] == 'l' || with[i] == 'm' || with[i] == 'o' || with[i] == 'p' || with[i] == 'r' || with[i] == 'x');
        }
    }
    lemma_no_point_between(a, with, b);
    let t = a + with + b;
    reveal_strlit("i.e.");
    assert("i.e."@.len() == 4 && "i.e."@.last() == '.');
    lemma_no_point(t, "i.e."@, "that is "@);
    reveal_strlit("vs.");
    assert("vs."@.len() == 3 && "vs."@.last() == '.');
    lemma_no_point(t, "vs."@, "versus "@);
    reveal_strlit("等.");
    assert("等."@.len() == 2 && "等."@.last() == '.');
    lemma_no_point(t, "等."@, "等等"@);
    reveal_strlit("例.");
    assert("例."@.len() == 2 && "例."@.last() == '.');
    lemma_no_point(t, "例."@, "例如"@);
}

proof fn lemma_that_is(a: Seq<char>, b: Seq<char>)
    requires
        !a.contains('.'),
        !b.contains('.'),
    ensures
        abbreviations_expanded(a + "i.e."@ + b) == a + "that is "@ + b,
{
    reveal_strlit("i.e.");
    reveal_strlit("that is ");
    let pat = "i.e."@;
    let with = "that is "@;
    let s = a + pat + b;
    let n = a.len() as int;
    assert(pat.len() == 4);
    assert(pat[0] == 'i');
    assert(pat[1] == '.');
    assert(pat[2] == 'e');
    assert(pat[3] == '.');
    assert(with.len() == 8);
    assert(with[0] == 't');
    assert(with[1] == 'h');
    assert(with[2] == 'a');
    assert(with[3] == 't');
    assert(with[4] == ' ');
    assert(with[5] == 'i');
    assert(with[6] == 's');
    assert(with[7] == ' ');
    assert(s[n + 0] == 'i');
    assert(s[n + 1] == '.');
    assert(s[n + 2] == 'e');
    assert(s[n + 3] == '.');
    if n > 0 {
        assert(s[n - 1] == a[n - 1]);
        assert(a.contains(a[n - 1]));
    }
    reveal_strlit("Mr.");
    assert("Mr."@.len() == 3);
    assert("Mr."@[0] == 'M');
    assert("Mr."@[1] == 'r');
    assert("Mr."@[2] == '.');
    assert forall|i: int| 0 <= i < s.len() && #[trigger] s[i] == '.' implies ends_elsewhere(
        s,
        "Mr."@,
        i,
    ) by {
        lemma_points(a, pat, b, i);
    }
    lemma_absent(s, "Mr."@, "Mister "@);
    reveal_strlit("Mrs.");
    assert("Mrs."@.len() == 4);
    assert("Mrs."@[0] == 'M');
    assert("Mrs."@[1] == 'r');
    assert("Mrs."@[2] == 's');
    assert("Mrs."@[3] == '.');
    assert forall|i: int| 0 <= i < s.len() && #[trigger] s[i] == '.' implies ends_elsewhere(
        s,
        "Mrs."@,
        i,
    ) by {
        lemma_points(a, pat, b, i);
    }
    lemma_absent(s, "Mrs."@, "Missus "@);
    reveal_strlit("Dr.");
    assert("Dr."@.len() == 3);
    assert("Dr."@[0] == 'D');
    assert("Dr."@[1] == 'r');
    assert("Dr."@[2] == '.');
    assert forall|i: int| 0 <= i < s.len() && #[trigger] s[i] == '.' implies ends_elsewhere(
        s,
        "Dr."@,
        i,
    ) by {
        lemma_points(a, pat, b, i);
    }
    lemma_absent(s, "Dr."@, "Doctor "@);
    reveal_strlit("Prof.");
    assert("Prof."@.len() == 5);
    assert("Prof."@[0] == 'P');
    assert("Prof."@[1] == 'r');
    assert("Prof."@[2] == 'o');
    assert("Prof."@[3] == 'f');
    assert("Prof."@[4] == '.');
    assert forall|i: int| 0 <= i < s.len() && #[trigger] s[i] == '.' implies ends_elsewhere(
        s,
        "Prof."@,
        i,
    ) by {
        lemma_points(a, pat, b, i);
    }
    lemma_absent(s, "Prof."@, "Professor "@);
    reveal_strlit("etc.");
    assert("etc."@.len() == 4);
    assert("etc."@[0] == 'e');
    assert("etc."@[1] == 't');
    assert("etc."@[2] == 'c');
    assert("etc."@[3] == '.');
    assert forall|i: int| 0 <= i < s.len() && #[trigger] s[i] == '.' implies ends_elsewhere(
        s,
        "etc."@,
        i,
    ) by {
        lemma_points(a, pat, b, i);
    }
    lemma_absent(s, "etc."@, "et cetera "@);
    reveal_strlit("e.g.");
    assert("e.g."@.len() == 4);
    assert("e.g."@[0] == 'e');
    assert("e.g."@[1] == '.');
    assert("e.g."@[2] == 'g');
    assert("e.g."@[3] == '.');
    assert forall|i: int| 0 <= i < s.len() && #[trigger] s[i] == '.' implies ends_elsewhere(
        s,
        "e.g."@,
        i,
    ) by {
        lemma_points(a, pat, b, i);
    }
    lemma_absent(s, "e.g."@, "for example "@);
    assert forall|at: int| 0 <= at < a.len() implies !occurs_at(s, pat, at) by {
        if occurs_at(s, pat, at) {
            let part = s.subrange(at, at + pat.len());
            assert(part[1] == s[at + 1]);
            lemma_points(a, pat, b, at + 1);
            assert(part[3] == s[at + 3]);
            lemma_points(a, pat, b, at + 3);
        }
    }
    first_occurrence_is_replaced(a, pat, with, b);
    lemma_no_point(b, pat, with);
    assert(!with.contains('.')) by {
        if with.contains('.') {
            let i = with.index_of('.');
            assert(with[i] == ' ' || with[i] == 'a' || with[i] == 'h' || with[i] == 'i' || with[i] == 's' || with[i] == 't');
        }
    }
    lemma_no_point_between(a, with, b);
    let t = a + with + b;
    reveal_strlit("vs.");
    assert("vs."@.len() == 3 && "vs."@.last() == '.');
    lemma_no_point(t, "vs."@, "versus "@);
    reveal_strlit("等.");
    assert("等."@.len() == 2 && "等."@.last() == '.');
    lemma_no_point(t, "等."@, "等等"@);
    reveal_strlit("例.");
    assert("例."@.len() == 2 && "例."@.last() == '.');
    lemma_no_point(t, "例."@, "例如"@);
}

proof fn lemma_versus(a: Seq<char>, b: Seq<char>)
    requires
        !a.contains('.'),
        !b.contains('.'),
    ensures
        abbreviations_expanded(a + "vs."@ + b) == a + "versus "@ + b,
{
    reveal_strlit("vs.");
    reveal_strlit("versus ");
    let pat = "vs."@;
    let with = "versus "@;
    let s = a + pat + b;
    let n = a.len() as int;
    assert(pat.len() == 3);
    assert(pat[0] == 'v');
    assert(pat[1] == 's');
    assert(pat[2] == '.');
    assert(with.len() == 7);
    assert(with[0] == 'v');
    assert(with[1] == 'e');
    assert(with[2] == 'r');
    assert(with[3] == 's');
    assert(with[4] == 'u');
    assert(with[5] == 's');
    assert(with[6] == ' ');
    assert(s[n + 0] == 'v');
    assert(s[n + 1] == 's');
    assert(s[n + 2] == '.');
    if n > 0 {
        assert(s[n - 1] == a[n - 1]);
        assert(a.contains(a[n - 1]));
    }
    reveal_strlit("Mr.");
    assert("Mr."@.len() == 3);
    assert("Mr."@[0] == 'M');
    assert("Mr."@[1] == 'r');
    assert("Mr."@[2] == '.');
    assert forall|i: int| 0 <= i < s.len() && #[trigger] s[i] == '.' implies ends_elsewhere(
        s,
        "Mr."@,
        i,
    ) by {
        lemma_points(a, pat, b, i);
    }
    lemma_absent(s, "Mr."@, "Mister "@);
    reveal_strlit("Mrs.");
    assert("Mrs."@.len() == 4);
    assert("Mrs."@[0] == 'M');
    assert("Mrs."@[1] == 'r');
    assert("Mrs."@[2] == 's');
    assert("Mrs."@[3] == '.');
    assert forall|i: int| 0 <= i < s.len() && #[trigger] s[i] == '.' implies ends_elsewhere(
        s,
        "Mrs."@,
        i,
    ) by {
        lemma_points(a, pat, b, i);
    }
    lemma_absent(s, "Mrs."@, "Missus "@);
    reveal_strlit("Dr.");
    assert("Dr."@.len() == 3);
    assert("Dr."@[0] == 'D');
    assert("Dr."@[1] == 'r');
    assert("Dr."@[2] == '.');
    assert forall|i: int| 0 <= i < s.len() && #[trigger] s[i] == '.' implies ends_elsewhere(
        s,
        "Dr."@,
        i,
    ) by {
        lemma_points(a, pat, b, i);
    }
    lemma_absent(s, "Dr."@, "Doctor "@);
    reveal_strlit("Prof.");
    assert("Prof."@.len() == 5);
    assert("Prof."@[0] == 'P');
    assert("Prof."@[1] == 'r');
    assert("Prof."@[2] == 'o');
    assert("Prof."@[3] == 'f');
    assert("Prof."@[4] == '.');
    assert forall|i: int| 0 <= i < s.len() && #[trigger] s[i] == '.' implies ends_elsewhere(
        s,
        "Prof."@,
        i,
    ) by {
        lemma_points(a, pat, b, i);
    }
    lemma_absent(s, "Prof."@, "Professor "@);
    reveal_strlit("etc.");
    assert("etc."@.len() == 4);
    assert("etc."@[0] == 'e');
    assert("etc."@[1] == 't');
    assert("etc."@[2] == 'c');
    assert("etc."@[3] == '.');
    assert forall|i: int| 0 <= i < s.len() && #[trigger] s[i] == '.' implies ends_elsewhere(
        s,
        "etc."@,
        i,
    ) by {
        lemma_points(a, pat, b, i);
    }
    lemma_absent(s, "etc."@, "et cetera "@);
    reveal_strlit("e.g.");
    assert("e.g."@.len() == 4);
    assert("e.g."@[0] == 'e');
    assert("e.g."@[1] == '.');
    assert("e.g."@[2] == 'g');
    assert("e.g."@[3] == '.');
    assert forall|i: int| 0 <= i < s.len() && #[trigger] s[i] == '.' implies ends_elsewhere(
        s,
        "e.g."@,
        i,
    ) by {
        lemma_points(a, pat, b, i);
    }
    lemma_absent(s, "e.g."@, "for example "@);
    reveal_strlit("i.e.");
    assert("i.e."@.len() == 4);
    assert("i.e."@[0] == 'i');
    assert("i.e."@[1] == '.');
    assert("i.e."@[2] == 'e');
    assert("i.e."@[3] == '.');
    assert forall|i: int| 0 <= i < s.len() && #[trigger] s[i] == '.' implies ends_elsewhere(
        s,
        "i.e."@,
        i,
    ) by {
        lemma_points(a, pat, b, i);
    }
    lemma_absent(s, "i.e."@, "that is "@);
    assert forall|at: int| 0 <= at < a.len() implies !occurs_at(s, pat, at) by {
        if occurs_at(s, pat, at) {
            let part = s.subrange(at, at + pat.len());
            assert(part[2] == s[at + 2]);
            lemma_points(a, pat, b, at + 2);
        }
    }
    first_occurrence_is_replaced(a, pat, with, b);
    lemma_no_point(b, pat, with);
    assert(!with.contains('.')) by {
        if with.contains('.') {
            let i = with.index_of('.');
            assert(with[i] == ' ' || with[i] == 'e' || with[i] == 'r' || with[i] == 's' || with[i] == 'u' || with[i] == 'v');
        }
    }
    lemma_no_point_between(a, with, b);
    let t = a + with + b;
    reveal_strlit("等.");
    assert("等."@.len() == 2 && "等."@.last() == '.');
    lemma_no_point(t, "等."@, "等等"@);
    reveal_strlit("例.");
    assert("例."@.len() == 2 && "例."@.last() == '.');
    lemma_no_point(t, "例."@, "例如"@);
}

proof fn lemma_and_so_on(a: Seq<char>, b: Seq<char>)
    requires
        !a.contains('.'),
        !b.contains('.'),
    ensures
        abbreviations_expanded(a + "等."@ + b) == a + "等等"@ + b,
{
    reveal_strlit("等.");
    reveal_strlit("等等");
    let pat = "等."@;
    let with = "等等"@;
    let s = a + pat + b;
    let n = a.len() as int;
    assert(pat.len() == 2);
    assert(pat[0] == '等');
    assert(pat[1] == '.');
    assert(with.len() == 2);
    assert(with[0] == '等');
    assert(with[1] == '等');
    assert(s[n + 0] == '等');
    assert(s[n + 1] == '.');
    if n > 0 {
        assert(s[n - 1] == a[n - 1]);
        assert(a.contains(a[n - 1]));
    }
    reveal_strlit("Mr.");
    assert("Mr."@.len() == 3);
    assert("Mr."@[0] == 'M');
    assert("Mr."@[1] == 'r');
    assert("Mr."@[2] == '.');
    assert forall|i: int| 0 <= i < s.len() && #[trigger] s[i] == '.' implies ends_elsewhere(
        s,
        "Mr."@,
        i,
    ) by {
        lemma_points(a, pat, b, i);
    }
    lemma_absent(s, "Mr."@, "Mister "@);
    reveal_strlit("Mrs.");
    assert("Mrs."@.len() == 4);
    assert("Mrs."@[0] == 'M');
    assert("Mrs."@[1] == 'r');
    assert("Mrs."@[2] == 's');
    assert("Mrs."@[3] == '.');
    assert forall|i: int| 0 <= i < s.len() && #[trigger] s[i] == '.' implies ends_elsewhere(
        s,
        "Mrs."@,
        i,
    ) by {
        lemma_points(a, pat, b, i);
    }
    lemma_absent(s, "Mrs."@, "Missus "@);
    reveal_strlit("Dr.");
    assert("Dr."@.len() == 3);
    assert("Dr."@[0] == 'D');
    assert("Dr."@[1] == 'r');
    assert("Dr."@[2] == '.');
    assert forall|i: int| 0 <= i < s.len() && #[trigger] s[i] == '.' implies ends_elsewhere(
        s,
        "Dr."@,
        i,
    ) by {
        lemma_points(a, pat, b, i);
    }
    lemma_absent(s, "Dr."@, "Doctor "@);
    reveal_strlit("Prof.");
    assert("Prof."@.len() == 5);
    assert("Prof."@[0] == 'P');
    assert("Prof."@[1] == 'r');
    assert("Prof."@[2] == 'o');
    assert("Prof."@[3] == 'f');
    assert("Prof."@[4] == '.');
    assert forall|i: int| 0 <= i < s.len() && #[trigger] s[i] == '.' implies ends_elsewhere(
        s,
        "Prof."@,
        i,
    ) by {
        lemma_points(a, pat, b, i);
    }
    lemma_absent(s, "Prof."@, "Professor "@);
    reveal_strlit("etc.");
    assert("etc."@.len() == 4);
    assert("etc."@[0] == 'e');
    assert("etc."@[1] == 't');
    assert("etc."@[2] == 'c');
    assert("etc."@[3] == '.');
    assert forall|i: int| 0 <= i < s.len() && #[trigger] s[i] == '.' implies ends_elsewhere(
        s,
        "etc."@,
        i,
    ) by {
        lemma_points(a, pat, b, i);
    }
    lemma_absent(s, "etc."@, "et cetera "@);
    reveal_strlit("e.g.");
    assert("e.g."@.len() == 4);
    assert("e.g."@[0] == 'e');
    assert("e.g."@[1] == '.');
    assert("e.g."@[2] == 'g');
    assert("e.g."@[3] == '.');
    assert forall|i: int| 0 <= i < s.len() && #[trigger] s[i] == '.' implies ends_elsewhere(
        s,
        "e.g."@,
        i,
    ) by {
        lemma_points(a, pat, b, i);
    }
    lemma_absent(s, "e.g."@, "for example "@);
    reveal_strlit("i.e.");
    assert("i.e."@.len() == 4);
    assert("i.e."@[0] == 'i');
    assert("i.e."@[1] == '.');
    assert("i.e."@[2] == 'e');
    assert("i.e."@[3] == '.');
    assert forall|i: int| 0 <= i < s.len() && #[trigger] s[i] == '.' implies ends_elsewhere(
        s,
        "i.e."@,
        i,
    ) by {
        lemma_points(a, pat, b, i);
    }
    lemma_absent(s, "i.e."@, "that is "@);
    reveal_strlit("vs.");
    assert("vs."@.len() == 3);
    assert("vs."@[0] == 'v');
    assert("vs."@[1] == 's');
    assert("vs."@[2] == '.');
    assert forall|i: int| 0 <= i < s.len() && #[trigger] s[i] == '.' implies ends_elsewhere(
        s,
        "vs."@,
        i,
    ) by {
        lemma_points(a, pat, b, i);
    }
    lemma_absent(s, "vs."@, "versus "@);
    assert forall|at: int| 0 <= at < a.len() implies !occurs_at(s, pat, at) by {
        if occurs_at(s, pat, at) {
            let part = s.subrange(at, at + pat.len());
            assert(part[1] == s[at + 1]);
            lemma_points(a, pat, b, at + 1);
        }
    }
    first_occurrence_is_replaced(a, pat, with, b);
    lemma_no_point(b, pat, with);
    assert(!with.contains('.')) by {
        if with.contains('.') {
            let i = with.index_of('.');
            assert(with[i] == '等');
        }
    }
    lemma_no_point_between(a, with, b);
    let t = a + with + b;
    reveal_strlit("例.");
    assert("例."@.len() == 2 && "例."@.last() == '.');
    lemma_no_point(t, "例."@, "例如"@);
}

proof fn lemma_such_as(a: Seq<char>, b: Seq<char>)
    requires
        !a.contains('.'),
        !b.contains('.'),
    ensures
        abbreviations_expanded(a + "例."@ + b) == a + "例如"@ + b,
{
    reveal_strlit("例.");
    reveal_strlit("例如");
    let pat = "例."@;
    let with = "例如"@;
    let s = a + pat + b;
    let n = a.len() as int;
    assert(pat.len() == 2);
    assert(pat[0] == '例');
    assert(pat[1] == '.');
    assert(with.len() == 2);
    assert(with[0] == '例');
    assert(with[1] == '如');
    assert(s[n + 0] == '例');
    assert(s[n + 1] == '.');
    if n > 0 {
        assert(s[n - 1] == a[n - 1]);
        assert(a.contains(a[n - 1]));
    }
    reveal_strlit("Mr.");
    assert("Mr."@.len() == 3);
    assert("Mr."@[0] == 'M');
    assert("Mr."@[1] == 'r');
    assert("Mr."@[2] == '.');
    assert forall|i: int| 0 <= i < s.len() && #[trigger] s[i] == '.' implies ends_elsewhere(
        s,
        "Mr."@,
        i,
    ) by {
        lemma_points(a, pat, b, i);
    }
    lemma_absent(s, "Mr."@, "Mister "@);
    reveal_strlit("Mrs.");
    assert("Mrs."@.len() == 4);
    assert("Mrs."@[0] == 'M');
    assert("Mrs."@[1] == 'r');
    assert("Mrs."@[2] == 's');
    assert("Mrs."@[3] == '.');
    assert forall|i: int| 0 <= i < s.len() && #[trigger] s[i] == '.' implies ends_elsewhere(
        s,
        "Mrs."@,
        i,
    ) by {
        lemma_points(a, pat, b, i);
    }
    lemma_absent(s, "Mrs."@, "Missus "@);
    reveal_strlit("Dr.");
    assert("Dr."@.len() == 3);
    assert("Dr."@[0] == 'D');
    assert("Dr."@[1] == 'r');
    assert("Dr."@[2] == '.');
    assert forall|i: int| 0 <= i < s.len() && #[trigger] s[i] == '.' implies ends_elsewhere(
        s,
        "Dr."@,
        i,
    ) by {
        lemma_points(a, pat, b, i);
    }
    lemma_absent(s, "Dr."@, "Doctor "@);
    reveal_strlit("Prof.");
    assert("Prof."@.len() == 5);
    assert("Prof."@[0] == 'P');
    assert("Prof."@[1] == 'r');
    assert("Prof."@[2] == 'o');
    assert("Prof."@[3] == 'f');
    assert("Prof."@[4] == '.');
    assert forall|i: int| 0 <= i < s.len() && #[trigger] s[i] == '.' implies ends_elsewhere(
        s,
        "Prof."@,
        i,
    ) by {
        lemma_points(a, pat, b, i);
    }
    lemma_absent(s, "Prof."@, "Professor "@);
    reveal_strlit("etc.");
    assert("etc."@.len() == 4);
    assert("etc."@[0] == 'e');
    assert("etc."@[1] == 't');
    assert("etc."@[2] == 'c');
    assert("etc."@[3] == '.');
    assert forall|i: int| 0 <= i < s.len() && #[trigger] s[i] == '.' implies ends_elsewhere(
        s,
        "etc."@,
        i,
    ) by {
        lemma_points(a, pat, b, i);
    }
    lemma_absent(s, "etc."@, "et cetera "@);
    reveal_strlit("e.g.");
    assert("e.g."@.len() == 4);
    assert("e.g."@[0] == 'e');
    assert("e.g."@[1] == '.');
    assert("e.g."@[2] == 'g');
    assert("e.g."@[3] == '.');
    assert forall|i: int| 0 <= i < s.len() && #[trigger] s[i] == '.' implies ends_elsewhere(
        s,
        "e.g."@,
        i,
    ) by {
        lemma_points(a, pat, b, i);
    }
    lemma_absent(s, "e.g."@, "for example "@);
    reveal_strlit("i.e.");
    assert("i.e."@.len() == 4);
    assert("i.e."@[0] == 'i');
    assert("i.e."@[1] == '.');
    assert("i.e."@[2] == 'e');
    assert("i.e."@[3] == '.');
    assert forall|i: int| 0 <= i < s.len() && #[trigger] s[i] == '.' implies ends_elsewhere(
        s,
        "i.e."@,
        i,
    ) by {
        lemma_points(a, pat, b, i);
    }
    lemma_absent(s, "i.e."@, "that is "@);
    reveal_strlit("vs.");
    assert("vs."@.len() == 3);
    assert("vs."@[0] == 'v');
    assert("vs."@[1] == 's');
    assert("vs."@[2] == '.');
    assert forall|i: int| 0 <= i < s.len() && #[trigger] s[i] == '.' implies ends_elsewhere(
        s,
        "vs."@,
        i,
    ) by {
        lemma_points(a, pat, b, i);
    }
    lemma_absent(s, "vs."@, "versus "@);
    reveal_strlit("等.");
    assert("等."@.len() == 2);
    assert("等."@[0] == '等');
    assert("等."@[1] == '.');
    assert forall|i: int| 0 <= i < s.len() && #[trigger] s[i] == '.' implies ends_elsewhere(
        s,
        "等."@,
        i,
    ) by {
        lemma_points(a, pat, b, i);
    }
    lemma_absent(s, "等."@, "等等"@);
    assert forall|at: int| 0 <= at < a.len() implies !occurs_at(s, pat, at) by {
        if occurs_at(s, pat, at) {
            let part = s.subrange(at, at + pat.len());
            assert(part[1] == s[at + 1]);
            lemma_points(a, pat, b, at + 1);
        }
    }
    first_occurrence_is_replaced(a, pat, with, b);
    lemma_no_point(b, pat, with);
    assert(!with.contains('.')) by {
        if with.contains('.') {
            let i = with.index_of('.');
            assert(with[i] == '例' || with[i] == '如');
        }
    }
    lemma_no_point_between(a, with, b);
    let t = a + with + b;
}

/// An abbreviation is written out where it stands, and the text around it stays.
pub proof fn abbreviations_are_written_out(a: Seq<char>, b: Seq<char>)
    requires
        !a.contains('.'),
        !b.contains('.'),
    ensures
        abbreviations_expanded(a + "Mr."@ + b) == a + "Mister "@ + b,
        abbreviations_expanded(a + "Mrs."@ + b) == a + "Missus "@ + b,
        abbreviations_expanded(a + "Dr."@ + b) == a + "Doctor "@ + b,
        abbreviations_expanded(a + "Prof."@ + b) == a + "Professor "@ + b,
        abbreviations_expanded(a + "etc."@ + b) == a + "et cetera "@ + b,
        abbreviations_expanded(a + "e.g."@ + b) == a + "for example "@ + b,
        abbreviations_expanded(a + "i.e."@ + b) == a + "that is "@ + b,
        abbreviations_expanded(a + "vs."@ + b) == a + "versus "@ + b,
        abbreviations_expanded(a + "等."@ + b) == a + "等等"@ + b,
        abbreviations_expanded(a + "例."@ + b) == a + "例如"@ + b,
{
    lemma_mister(a, b);
    lemma_missus(a, b);
    lemma_doctor(a, b);
    lemma_professor(a, b);
    lemma_et_cetera(a, b);
    lemma_for_example(a, b);
    lemma_that_is(a, b);
    lemma_versus(a, b);
    lemma_and_so_on(a, b);
    lemma_such_as(a, b);
}

/// A text without points has no abbreviations and stays as it is.
pub proof fn text_without_points_has_no_abbreviations(s: Seq<char>)
    requires
        !s.contains('.'),
    ensures
        abbreviations_expanded(s) == s,
{
    reveal_strlit("Mr.");
    assert("Mr."@.len() == 3 && "Mr."@.last() == '.');
    lemma_no_point(s, "Mr."@, "Mister "@);
    reveal_strlit("Mrs.");
    assert("Mrs."@.len() == 4 && "Mrs."@.last() == '.');
    lemma_no_point(s, "Mrs."@, "Missus "@);
    reveal_strlit("Dr.");
    assert("Dr."@.len() == 3 && "Dr."@.last() == '.');
    lemma_no_point(s, "Dr."@, "Doctor "@);
    reveal_strlit("Prof.");
    assert("Prof."@.len() == 5 && "Prof."@.last() == '.');
    lemma_no_point(s, "Prof."@, "Professor "@);
    reveal_strlit("etc.");
    assert("etc."@.len() == 4 && "etc."@.last() == '.');
    lemma_no_point(s, "etc."@, "et cetera "@);
    reveal_strlit("e.g.");
    assert("e.g."@.len() == 4 && "e.g."@.last() == '.');
    lemma_no_point(s, "e.g."@, "for example "@);
    reveal_strlit("i.e.");
    assert("i.e."@.len() == 4 && "i.e."@.last() == '.');
    lemma_no_point(s, "i.e."@, "that is "@);
    reveal_strlit("vs.");
    assert("vs."@.len() == 3 && "vs."@.last() == '.');
    lemma_no_point(s, "vs."@, "versus "@);
    reveal_strlit("等.");
    assert("等."@.len() == 2 && "等."@.last() == '.');
    lemma_no_point(s, "等."@, "等等"@);
    reveal_strlit("例.");
    assert("例."@.len() == 2 && "例."@.last() == '.');
    lemma_no_point(s, "例."@, "例如"@);
}

} // verus!
