//! Joining of segmented words, so that the tone rules see the words they apply to.

use crate::strings::{chars_of, concat, same};
use crate::text_frontend::joining::{
    joins, lemma_concat_word, lemma_joins_again, lemma_joins_from, lemma_joins_glue,
    lemma_joins_push, lemma_joins_text,
};
use crate::text_frontend::lexicon::{seg_view, words_of};
use crate::text_frontend::tone_sandhi::{only_third_tones, tones_of, ToneSandhi};
use vstd::prelude::*;

verus! {

/// The text of a segmentation: its words, one after the other.
pub open spec fn text_of(seg: Seq<(Seq<char>, Seq<char>)>) -> Seq<char> {
    concat(words_of(seg))
}

/// A segmentation with `text` appended to its last word.
pub open spec fn glue(seg: Seq<(Seq<char>, Seq<char>)>, text: Seq<char>) -> Seq<
    (Seq<char>, Seq<char>),
>
    recommends
        seg.len() > 0,
{
    seg.update(seg.len() - 1, (seg.last().0 + text, seg.last().1))
}

/// The first `k` words with "不" put before the word that follows it, and the word seen last.
pub open spec fn bu_joined(seg: Seq<(Seq<char>, Seq<char>)>, k: nat) -> (
    Seq<(Seq<char>, Seq<char>)>,
    Seq<char>,
)
    decreases k,
{
    if k == 0 {
        (Seq::empty(), Seq::empty())
    } else {
        let (done, last) = bu_joined(seg, (k - 1) as nat);
        let word = if last == "不"@ {
            "不"@ + seg[k - 1].0
        } else {
            seg[k - 1].0
        };
        (
            if word != "不"@ {
                done.push((word, seg[k - 1].1))
            } else {
                done
            },
            word,
        )
    }
}

/// The words with "不" joined to the word that follows it; a final "不" stays, an adverb.
pub open spec fn merged_bu(seg: Seq<(Seq<char>, Seq<char>)>) -> Seq<(Seq<char>, Seq<char>)> {
    let (done, last) = bu_joined(seg, seg.len());
    if last == "不"@ {
        done.push(("不"@, "d"@))
    } else {
        done
    }
}

/// `done` followed by the words from `i` on, in which a verb, "一" and the same verb are one.
pub open spec fn yi_repetitions(
    seg: Seq<(Seq<char>, Seq<char>)>,
    done: Seq<(Seq<char>, Seq<char>)>,
    i: int,
) -> Seq<(Seq<char>, Seq<char>)>
    decreases seg.len() - i,
{
    if i >= seg.len() {
        done
    } else if i >= 1 && seg[i].0 == "一"@ && i + 1 < seg.len() && done.len() > 0
        && done.last().0 == seg[i + 1].0 && done.last().1 == "v"@ && seg[i + 1].1 == "v"@ {
        yi_repetitions(seg, glue(done, "一"@ + seg[i + 1].0), i + 2)
    } else {
        yi_repetitions(seg, done.push(seg[i]), i + 1)
    }
}

/// The first `k` words with "一" joined to the word that follows it.
pub open spec fn yi_joined(seg: Seq<(Seq<char>, Seq<char>)>, k: nat) -> Seq<(Seq<char>, Seq<char>)>
    decreases k,
{
    if k == 0 {
        Seq::empty()
    } else {
        let done = yi_joined(seg, (k - 1) as nat);
        if done.len() > 0 && done.last().0 == "一"@ {
            glue(done, seg[k - 1].0)
        } else {
            done.push(seg[k - 1])
        }
    }
}

/// The words with "一" joined to its neighbours.
pub open spec fn merged_yi(seg: Seq<(Seq<char>, Seq<char>)>) -> Seq<(Seq<char>, Seq<char>)> {
    let repeated = yi_repetitions(seg, Seq::empty(), 0);
    yi_joined(repeated, repeated.len())
}

/// The first `k` words with a word joined to an equal one before it.
pub open spec fn doubles_joined(seg: Seq<(Seq<char>, Seq<char>)>, k: nat) -> Seq<
    (Seq<char>, Seq<char>),
>
    decreases k,
{
    if k == 0 {
        Seq::empty()
    } else {
        let done = doubles_joined(seg, (k - 1) as nat);
        if done.len() > 0 && done.last().0 == seg[k - 1].0 {
            glue(done, seg[k - 1].0)
        } else {
            done.push(seg[k - 1])
        }
    }
}

/// Whether a word is one character twice.
pub open spec fn is_double(word: Seq<char>) -> bool {
    word.len() == 2 && word[0] == word[1]
}

/// The first tone of a word, or 0.
pub open spec fn first_tone(tones: Seq<u32>) -> u32
    decreases tones.len(),
{
    if tones.len() == 0 {
        0
    } else if tones[0] > 0 {
        tones[0]
    } else {
        first_tone(tones.skip(1))
    }
}

/// The last tone of a word, or 0.
pub open spec fn last_tone(tones: Seq<u32>) -> u32
    decreases tones.len(),
{
    if tones.len() == 0 {
        0
    } else if tones.last() > 0 {
        tones.last()
    } else {
        last_tone(tones.drop_last())
    }
}

/// Whether word `i` goes with the word before it: both short, the first no double, and
/// third tones throughout both words (`whole`) or where they meet.
pub open spec fn third_tones_meet(
    seg: Seq<(Seq<char>, Seq<char>)>,
    i: int,
    whole: bool,
) -> bool {
    let before = seg[i - 1].0;
    let word = seg[i].0;
    &&& if whole {
        only_third_tones(tones_of(before)) && only_third_tones(tones_of(word))
    } else {
        last_tone(tones_of(before)) == 3 && first_tone(tones_of(word)) == 3
    }
    &&& !is_double(before)
    &&& before.len() + word.len() <= 3
}

/// The first `k` words with third tone neighbours joined, and whether the last of them was
/// joined: no word is joined to one that was itself joined.
pub open spec fn thirds_joined(seg: Seq<(Seq<char>, Seq<char>)>, k: nat, whole: bool) -> (
    Seq<(Seq<char>, Seq<char>)>,
    bool,
)
    decreases k,
{
    if k == 0 {
        (Seq::empty(), false)
    } else {
        let (done, joined) = thirds_joined(seg, (k - 1) as nat, whole);
        if k >= 2 && !joined && third_tones_meet(seg, k - 1, whole) {
            (glue(done, seg[k - 1].0), true)
        } else {
            (done.push(seg[k - 1]), false)
        }
    }
}

/// The first `k` words with "儿" joined to the word before it.
pub open spec fn er_joined(seg: Seq<(Seq<char>, Seq<char>)>, k: nat) -> Seq<(Seq<char>, Seq<char>)>
    decreases k,
{
    if k == 0 {
        Seq::empty()
    } else {
        let done = er_joined(seg, (k - 1) as nat);
        if k >= 2 && seg[k - 1].0 == "儿"@ && seg[k - 2].0 != "#"@ {
            glue(done, seg[k - 1].0)
        } else {
            done.push(seg[k - 1])
        }
    }
}

/// The words after all joining passes.
pub open spec fn pre_merged(seg: Seq<(Seq<char>, Seq<char>)>) -> Seq<(Seq<char>, Seq<char>)> {
    let seg = merged_bu(seg);
    let seg = merged_yi(seg);
    let seg = doubles_joined(seg, seg.len());
    let seg = thirds_joined(seg, seg.len(), true).0;
    let seg = thirds_joined(seg, seg.len(), false).0;
    er_joined(seg, seg.len())
}

proof fn lemma_text_push(seg: Seq<(Seq<char>, Seq<char>)>, word: (Seq<char>, Seq<char>))
    ensures
        text_of(seg.push(word)) == text_of(seg) + word.0,
{
    assert(words_of(seg.push(word)).drop_last() =~= words_of(seg));
    assert(words_of(seg.push(word)).last() == word.0);
}

proof fn lemma_text_glue(seg: Seq<(Seq<char>, Seq<char>)>, text: Seq<char>)
    requires
        seg.len() > 0,
    ensures
        text_of(glue(seg, text)) == text_of(seg) + text,
{
    let rest = seg.drop_last();
    assert(seg =~= rest.push(seg.last()));
    assert(glue(seg, text) =~= rest.push((seg.last().0 + text, seg.last().1)));
    lemma_text_push(rest, seg.last());
    lemma_text_push(rest, (seg.last().0 + text, seg.last().1));
    assert(text_of(rest) + (seg.last().0 + text) =~= text_of(rest) + seg.last().0 + text);
}

proof fn lemma_text_take(seg: Seq<(Seq<char>, Seq<char>)>, k: int)
    requires
        0 < k <= seg.len(),
    ensures
        text_of(seg.take(k)) == text_of(seg.take(k - 1)) + seg[k - 1].0,
{
    assert(seg.take(k) =~= seg.take(k - 1).push(seg[k - 1]));
    lemma_text_push(seg.take(k - 1), seg[k - 1]);
}

proof fn lemma_bu_text(seg: Seq<(Seq<char>, Seq<char>)>, k: nat)
    requires
        k <= seg.len(),
    ensures
        ({
            let (done, last) = bu_joined(seg, k);
            text_of(seg.take(k as int)) == text_of(done) + (if last == "不"@ {
                last
            } else {
                Seq::empty()
            })
        }),
    decreases k,
{
    reveal_strlit("不");
    if k == 0 {
        assert(words_of(seg.take(0)) =~= Seq::empty());
        assert(words_of(Seq::empty()) =~= Seq::<Seq<char>>::empty());
    } else {
        lemma_bu_text(seg, (k - 1) as nat);
        lemma_text_take(seg, k as int);
        let (done, last) = bu_joined(seg, (k - 1) as nat);
        let word = if last == "不"@ {
            "不"@ + seg[k - 1].0
        } else {
            seg[k - 1].0
        };
        lemma_text_push(done, (word, seg[k - 1].1));
        if last == "不"@ {
            assert(text_of(done) + "不"@ + seg[k - 1].0 =~= text_of(done) + ("不"@ + seg[k
                - 1].0));
        }
    }
}

proof fn lemma_yi_repetitions_text(
    seg: Seq<(Seq<char>, Seq<char>)>,
    done: Seq<(Seq<char>, Seq<char>)>,
    i: int,
)
    requires
        0 <= i <= seg.len(),
        text_of(done) == text_of(seg.take(i)),
    ensures
        text_of(yi_repetitions(seg, done, i)) == text_of(seg),
    decreases seg.len() - i,
{
    if i >= seg.len() {
        assert(seg.take(i) =~= seg);
    } else if i >= 1 && seg[i].0 == "一"@ && i + 1 < seg.len() && done.len() > 0
        && done.last().0 == seg[i + 1].0 && done.last().1 == "v"@ && seg[i + 1].1 == "v"@ {
        lemma_text_glue(done, "一"@ + seg[i + 1].0);
        lemma_text_take(seg, i + 1);
        lemma_text_take(seg, i + 2);
        assert(text_of(done) + ("一"@ + seg[i + 1].0) =~= text_of(done) + "一"@ + seg[i + 1].0);
        lemma_yi_repetitions_text(seg, glue(done, "一"@ + seg[i + 1].0), i + 2);
    } else {
        lemma_text_push(done, seg[i]);
        lemma_text_take(seg, i + 1);
        lemma_yi_repetitions_text(seg, done.push(seg[i]), i + 1);
    }
}

proof fn lemma_yi_joined_text(seg: Seq<(Seq<char>, Seq<char>)>, k: nat)
    requires
        k <= seg.len(),
    ensures
        text_of(yi_joined(seg, k)) == text_of(seg.take(k as int)),
    decreases k,
{
    if k == 0 {
        assert(seg.take(0) =~= Seq::empty());
    } else {
        lemma_yi_joined_text(seg, (k - 1) as nat);
        lemma_text_take(seg, k as int);
        let done = yi_joined(seg, (k - 1) as nat);
        lemma_text_push(done, seg[k - 1]);
        if done.len() > 0 {
            lemma_text_glue(done, seg[k - 1].0);
        }
    }
}

proof fn lemma_doubles_text(seg: Seq<(Seq<char>, Seq<char>)>, k: nat)
    requires
        k <= seg.len(),
    ensures
        text_of(doubles_joined(seg, k)) == text_of(seg.take(k as int)),
    decreases k,
{
    if k == 0 {
        assert(seg.take(0) =~= Seq::empty());
    } else {
        lemma_doubles_text(seg, (k - 1) as nat);
        lemma_text_take(seg, k as int);
        let done = doubles_joined(seg, (k - 1) as nat);
        lemma_text_push(done, seg[k - 1]);
        if done.len() > 0 {
            lemma_text_glue(done, seg[k - 1].0);
        }
    }
}

proof fn lemma_thirds_text(seg: Seq<(Seq<char>, Seq<char>)>, k: nat, whole: bool)
    requires
        k <= seg.len(),
    ensures
        text_of(thirds_joined(seg, k, whole).0) == text_of(seg.take(k as int)),
        k > 0 ==> thirds_joined(seg, k, whole).0.len() > 0,
    decreases k,
{
    if k == 0 {
        assert(seg.take(0) =~= Seq::empty());
    } else {
        lemma_thirds_text(seg, (k - 1) as nat, whole);
        lemma_text_take(seg, k as int);
        let done = thirds_joined(seg, (k - 1) as nat, whole).0;
        lemma_text_push(done, seg[k - 1]);
        if done.len() > 0 {
            lemma_text_glue(done, seg[k - 1].0);
        }
    }
}

proof fn lemma_er_text(seg: Seq<(Seq<char>, Seq<char>)>, k: nat)
    requires
        k <= seg.len(),
    ensures
        text_of(er_joined(seg, k)) == text_of(seg.take(k as int)),
        k > 0 ==> er_joined(seg, k).len() > 0,
    decreases k,
{
    if k == 0 {
        assert(seg.take(0) =~= Seq::empty());
    } else {
        lemma_er_text(seg, (k - 1) as nat);
        lemma_text_take(seg, k as int);
        let done = er_joined(seg, (k - 1) as nat);
        lemma_text_push(done, seg[k - 1]);
        if done.len() > 0 {
            lemma_text_glue(done, seg[k - 1].0);
        }
    }
}

/// Joining words changes where words end, never the text: the words before and after all
/// passes spell the same characters.
pub proof fn pre_merge_keeps_text(seg: Seq<(Seq<char>, Seq<char>)>)
    ensures
        text_of(pre_merged(seg)) == text_of(seg),
{
    let bu = merged_bu(seg);
    assert(text_of(bu) == text_of(seg)) by {
        lemma_bu_text(seg, seg.len());
        assert(seg.take(seg.len() as int) =~= seg);
        let (done, last) = bu_joined(seg, seg.len());
        lemma_text_push(done, ("不"@, "d"@));
        assert(text_of(done) + Seq::<char>::empty() =~= text_of(done));
    }
    let repeated = yi_repetitions(bu, Seq::empty(), 0);
    assert(bu.take(0) =~= Seq::empty());
    lemma_yi_repetitions_text(bu, Seq::empty(), 0);
    let yi = merged_yi(bu);
    lemma_yi_joined_text(repeated, repeated.len());
    assert(repeated.take(repeated.len() as int) =~= repeated);
    let doubles = doubles_joined(yi, yi.len());
    lemma_doubles_text(yi, yi.len());
    assert(yi.take(yi.len() as int) =~= yi);
    let thirds = thirds_joined(doubles, doubles.len(), true).0;
    lemma_thirds_text(doubles, doubles.len(), true);
    assert(doubles.take(doubles.len() as int) =~= doubles);
    let meeting = thirds_joined(thirds, thirds.len(), false).0;
    lemma_thirds_text(thirds, thirds.len(), false);
    assert(thirds.take(thirds.len() as int) =~= thirds);
    lemma_er_text(meeting, meeting.len());
    assert(meeting.take(meeting.len() as int) =~= meeting);
}

/// Whether no word of a segmentation is empty.
pub open spec fn no_empty_word(seg: Seq<(Seq<char>, Seq<char>)>) -> bool {
    forall|i: int| 0 <= i < seg.len() ==> (#[trigger] seg[i]).0.len() > 0
}

proof fn lemma_bu_no_empty(seg: Seq<(Seq<char>, Seq<char>)>, k: nat)
    requires
        k <= seg.len(),
        no_empty_word(seg),
    ensures
        no_empty_word(bu_joined(seg, k).0),
    decreases k,
{
    reveal_strlit("不");
    if k > 0 {
        lemma_bu_no_empty(seg, (k - 1) as nat);
    }
}

proof fn lemma_yi_repetitions_no_empty(
    seg: Seq<(Seq<char>, Seq<char>)>,
    done: Seq<(Seq<char>, Seq<char>)>,
    i: int,
)
    requires
        0 <= i <= seg.len(),
        no_empty_word(seg),
        no_empty_word(done),
    ensures
        no_empty_word(yi_repetitions(seg, done, i)),
    decreases seg.len() - i,
{
    if i >= seg.len() {
    } else if i >= 1 && seg[i].0 == "一"@ && i + 1 < seg.len() && done.len() > 0 && done.last().0
        == seg[i + 1].0 && done.last().1 == "v"@ && seg[i + 1].1 == "v"@ {
        assert(done[done.len() - 1].0.len() > 0);
        lemma_yi_repetitions_no_empty(seg, glue(done, "一"@ + seg[i + 1].0), i + 2);
    } else {
        lemma_yi_repetitions_no_empty(seg, done.push(seg[i]), i + 1);
    }
}

proof fn lemma_yi_joined_no_empty(seg: Seq<(Seq<char>, Seq<char>)>, k: nat)
    requires
        k <= seg.len(),
        no_empty_word(seg),
    ensures
        no_empty_word(yi_joined(seg, k)),
    decreases k,
{
    if k > 0 {
        lemma_yi_joined_no_empty(seg, (k - 1) as nat);
        let done = yi_joined(seg, (k - 1) as nat);
        assert(done.len() > 0 ==> done[done.len() - 1].0.len() > 0);
    }
}

proof fn lemma_doubles_no_empty(seg: Seq<(Seq<char>, Seq<char>)>, k: nat)
    requires
        k <= seg.len(),
        no_empty_word(seg),
    ensures
        no_empty_word(doubles_joined(seg, k)),
    decreases k,
{
    if k > 0 {
        lemma_doubles_no_empty(seg, (k - 1) as nat);
        let done = doubles_joined(seg, (k - 1) as nat);
        assert(done.len() > 0 ==> done[done.len() - 1].0.len() > 0);
    }
}

proof fn lemma_thirds_no_empty(seg: Seq<(Seq<char>, Seq<char>)>, k: nat, whole: bool)
    requires
        k <= seg.len(),
        no_empty_word(seg),
    ensures
        no_empty_word(thirds_joined(seg, k, whole).0),
    decreases k,
{
    if k > 0 {
        lemma_thirds_no_empty(seg, (k - 1) as nat, whole);
        let done = thirds_joined(seg, (k - 1) as nat, whole).0;
        assert(done.len() > 0 ==> done[done.len() - 1].0.len() > 0);
    }
}

proof fn lemma_er_no_empty(seg: Seq<(Seq<char>, Seq<char>)>, k: nat)
    requires
        k <= seg.len(),
        no_empty_word(seg),
    ensures
        no_empty_word(er_joined(seg, k)),
    decreases k,
{
    if k > 0 {
        lemma_er_no_empty(seg, (k - 1) as nat);
        lemma_er_text(seg, (k - 1) as nat);
        let done = er_joined(seg, (k - 1) as nat);
        assert(done.len() > 0 ==> done[done.len() - 1].0.len() > 0);
    }
}

/// Joining makes no empty word.
pub proof fn pre_merge_makes_no_empty_word(seg: Seq<(Seq<char>, Seq<char>)>)
    requires
        no_empty_word(seg),
    ensures
        no_empty_word(pre_merged(seg)),
{
    reveal_strlit("不");
    lemma_bu_no_empty(seg, seg.len());
    let bu = merged_bu(seg);
    assert(no_empty_word(bu));
    let repeated = yi_repetitions(bu, Seq::empty(), 0);
    lemma_yi_repetitions_no_empty(bu, Seq::empty(), 0);
    lemma_yi_joined_no_empty(repeated, repeated.len());
    let yi = merged_yi(bu);
    lemma_doubles_no_empty(yi, yi.len());
    let doubles = doubles_joined(yi, yi.len());
    lemma_thirds_no_empty(doubles, doubles.len(), true);
    let thirds = thirds_joined(doubles, doubles.len(), true).0;
    lemma_thirds_no_empty(thirds, thirds.len(), false);
    let meeting = thirds_joined(thirds, thirds.len(), false).0;
    lemma_er_no_empty(meeting, meeting.len());
}

proof fn lemma_words_push(seg: Seq<(Seq<char>, Seq<char>)>, word: (Seq<char>, Seq<char>))
    ensures
        words_of(seg.push(word)) == words_of(seg).push(word.0),
{
    assert(words_of(seg.push(word)) =~= words_of(seg).push(word.0));
}

proof fn lemma_words_glue(seg: Seq<(Seq<char>, Seq<char>)>, text: Seq<char>)
    requires
        seg.len() > 0,
    ensures
        words_of(glue(seg, text)) == words_of(seg).update(
            seg.len() - 1,
            words_of(seg).last() + text,
        ),
{
    assert(words_of(glue(seg, text)) =~= words_of(seg).update(
        seg.len() - 1,
        words_of(seg).last() + text,
    ));
}

/// A word that stays, or goes with the one before it.
proof fn lemma_step(
    seg: Seq<(Seq<char>, Seq<char>)>,
    done: Seq<(Seq<char>, Seq<char>)>,
    k: int,
)
    requires
        0 <= k < seg.len(),
        joins(words_of(seg).take(k), words_of(done)),
    ensures
        joins(words_of(seg).take(k + 1), words_of(done.push(seg[k]))),
        done.len() > 0 ==> joins(words_of(seg).take(k + 1), words_of(glue(done, seg[k].0))),
{
    let words = words_of(seg);
    assert(words.take(k + 1) =~= words.take(k).push(seg[k].0));
    lemma_joins_push(words.take(k), words_of(done), seg[k].0);
    lemma_words_push(done, seg[k]);
    if done.len() > 0 {
        lemma_joins_glue(words.take(k), words_of(done), seg[k].0);
        lemma_words_glue(done, seg[k].0);
    }
}

/// Whether joined words are made of some words, but for a "不" that waits for the next one.
spec fn joins_but(words: Seq<Seq<char>>, joined: Seq<Seq<char>>, last: Seq<char>) -> bool {
    if last == "不"@ {
        exists|m: int|
            0 <= m < words.len() && joins(#[trigger] words.take(m), joined) && concat(words.skip(m))
                == "不"@
    } else {
        joins(words, joined)
    }
}

proof fn lemma_bu_joins(seg: Seq<(Seq<char>, Seq<char>)>, k: nat)
    requires
        k <= seg.len(),
    ensures
        joins_but(words_of(seg).take(k as int), words_of(bu_joined(seg, k).0), bu_joined(seg, k).1),
    decreases k,
{
    reveal_strlit("不");
    let words = words_of(seg);
    if k == 0 {
        lemma_nothing_joins(seg);
        assert("不"@.len() == 1);
    } else {
        lemma_bu_joins(seg, (k - 1) as nat);
        let (done, last) = bu_joined(seg, (k - 1) as nat);
        let text = seg[k - 1].0;
        let before = words.take(k - 1);
        let now = words.take(k as int);
        assert(now =~= before.push(text));
        if last == "不"@ {
            let m = choose|m: int|
                0 <= m < before.len() && joins(#[trigger] before.take(m), words_of(done))
                    && concat(before.skip(m)) == "不"@;
            assert(now.take(m) =~= before.take(m));
            assert(now.skip(m) =~= before.skip(m).push(text));
            lemma_concat_word(before.skip(m), text);
            let word = "不"@ + text;
            assert(concat(now.skip(m)) == word);
            if word != "不"@ {
                lemma_joins_from(now, words_of(done), m);
                lemma_words_push(done, (word, seg[k - 1].1));
            }
        } else if text != "不"@ {
            lemma_joins_push(before, words_of(done), text);
            lemma_words_push(done, (text, seg[k - 1].1));
        } else {
            let m = k - 1;
            assert(now.take(m) =~= before);
            assert(now.skip(m) =~= Seq::empty().push(text));
            lemma_concat_word(Seq::empty(), text);
            assert(concat(Seq::empty()) + text =~= text);
        }
    }
}

proof fn lemma_merged_bu_joins(seg: Seq<(Seq<char>, Seq<char>)>)
    ensures
        joins(words_of(seg), words_of(merged_bu(seg))),
{
    lemma_bu_joins(seg, seg.len());
    let words = words_of(seg);
    assert(words.take(seg.len() as int) =~= words);
    let (done, last) = bu_joined(seg, seg.len());
    if last == "不"@ {
        let m = choose|m: int|
            0 <= m < words.len() && joins(#[trigger] words.take(m), words_of(done)) && concat(
                words.skip(m),
            ) == "不"@;
        lemma_joins_from(words, words_of(done), m);
        lemma_words_push(done, ("不"@, "d"@));
    }
}

proof fn lemma_yi_repetitions_joins(
    seg: Seq<(Seq<char>, Seq<char>)>,
    done: Seq<(Seq<char>, Seq<char>)>,
    i: int,
)
    requires
        0 <= i <= seg.len(),
        joins(words_of(seg).take(i), words_of(done)),
    ensures
        joins(words_of(seg), words_of(yi_repetitions(seg, done, i))),
    decreases seg.len() - i,
{
    if i >= seg.len() {
        assert(words_of(seg).take(i) =~= words_of(seg));
    } else if i >= 1 && seg[i].0 == "一"@ && i + 1 < seg.len() && done.len() > 0 && done.last().0
        == seg[i + 1].0 && done.last().1 == "v"@ && seg[i + 1].1 == "v"@ {
        lemma_step(seg, done, i);
        let once = glue(done, "一"@);
        lemma_step(seg, once, i + 1);
        assert(done.last().0 + "一"@ + seg[i + 1].0 =~= done.last().0 + ("一"@ + seg[i + 1].0));
        assert(glue(once, seg[i + 1].0) =~= glue(done, "一"@ + seg[i + 1].0));
        lemma_yi_repetitions_joins(seg, glue(done, "一"@ + seg[i + 1].0), i + 2);
    } else {
        lemma_step(seg, done, i);
        lemma_yi_repetitions_joins(seg, done.push(seg[i]), i + 1);
    }
}

proof fn lemma_nothing_joins(seg: Seq<(Seq<char>, Seq<char>)>)
    ensures
        joins(words_of(seg).take(0), words_of(Seq::<(Seq<char>, Seq<char>)>::empty())),
{
    assert(words_of(Seq::<(Seq<char>, Seq<char>)>::empty()) =~= Seq::empty());
}

proof fn lemma_yi_joined_joins(seg: Seq<(Seq<char>, Seq<char>)>, k: nat)
    requires
        k <= seg.len(),
    ensures
        joins(words_of(seg).take(k as int), words_of(yi_joined(seg, k))),
    decreases k,
{
    if k == 0 {
        lemma_nothing_joins(seg);
    } else {
        lemma_yi_joined_joins(seg, (k - 1) as nat);
        lemma_step(seg, yi_joined(seg, (k - 1) as nat), k - 1);
    }
}

proof fn lemma_doubles_joins(seg: Seq<(Seq<char>, Seq<char>)>, k: nat)
    requires
        k <= seg.len(),
    ensures
        joins(words_of(seg).take(k as int), words_of(doubles_joined(seg, k))),
    decreases k,
{
    if k == 0 {
        lemma_nothing_joins(seg);
    } else {
        lemma_doubles_joins(seg, (k - 1) as nat);
        lemma_step(seg, doubles_joined(seg, (k - 1) as nat), k - 1);
    }
}

proof fn lemma_thirds_joins(seg: Seq<(Seq<char>, Seq<char>)>, k: nat, whole: bool)
    requires
        k <= seg.len(),
    ensures
        joins(words_of(seg).take(k as int), words_of(thirds_joined(seg, k, whole).0)),
    decreases k,
{
    if k == 0 {
        lemma_nothing_joins(seg);
    } else {
        lemma_thirds_joins(seg, (k - 1) as nat, whole);
        lemma_thirds_text(seg, (k - 1) as nat, whole);
        lemma_step(seg, thirds_joined(seg, (k - 1) as nat, whole).0, k - 1);
    }
}

proof fn lemma_er_joins(seg: Seq<(Seq<char>, Seq<char>)>, k: nat)
    requires
        k <= seg.len(),
    ensures
        joins(words_of(seg).take(k as int), words_of(er_joined(seg, k))),
    decreases k,
{
    if k == 0 {
        lemma_nothing_joins(seg);
    } else {
        lemma_er_joins(seg, (k - 1) as nat);
        lemma_er_text(seg, (k - 1) as nat);
        lemma_step(seg, er_joined(seg, (k - 1) as nat), k - 1);
    }
}

/// All passes only join neighbours: each word of the result is one or more consecutive words, one
/// after the other, and together they are all of them. So there are never more words than before.
pub proof fn pre_merge_joins_neighbours(seg: Seq<(Seq<char>, Seq<char>)>)
    ensures
        joins(words_of(seg), words_of(pre_merged(seg))),
        text_of(pre_merged(seg)) == text_of(seg),
        pre_merged(seg).len() <= seg.len(),
{
    let bu = merged_bu(seg);
    lemma_merged_bu_joins(seg);
    let repeated = yi_repetitions(bu, Seq::empty(), 0);
    lemma_nothing_joins(bu);
    lemma_yi_repetitions_joins(bu, Seq::empty(), 0);
    lemma_joins_again(words_of(seg), words_of(bu), words_of(repeated));
    let yi = merged_yi(bu);
    lemma_yi_joined_joins(repeated, repeated.len());
    assert(words_of(repeated).take(repeated.len() as int) =~= words_of(repeated));
    lemma_joins_again(words_of(seg), words_of(repeated), words_of(yi));
    let doubles = doubles_joined(yi, yi.len());
    lemma_doubles_joins(yi, yi.len());
    assert(words_of(yi).take(yi.len() as int) =~= words_of(yi));
    lemma_joins_again(words_of(seg), words_of(yi), words_of(doubles));
    let thirds = thirds_joined(doubles, doubles.len(), true).0;
    lemma_thirds_joins(doubles, doubles.len(), true);
    assert(words_of(doubles).take(doubles.len() as int) =~= words_of(doubles));
    lemma_joins_again(words_of(seg), words_of(doubles), words_of(thirds));
    let meeting = thirds_joined(thirds, thirds.len(), false).0;
    lemma_thirds_joins(thirds, thirds.len(), false);
    assert(words_of(thirds).take(thirds.len() as int) =~= words_of(thirds));
    lemma_joins_again(words_of(seg), words_of(thirds), words_of(meeting));
    lemma_er_joins(meeting, meeting.len());
    assert(words_of(meeting).take(meeting.len() as int) =~= words_of(meeting));
    lemma_joins_again(words_of(seg), words_of(meeting), words_of(pre_merged(seg)));
    lemma_joins_text(words_of(seg), words_of(pre_merged(seg)));
}

/// Adds a word.
fn push_word(seg: &mut Vec<(String, String)>, word: &str, pos: &str)
    ensures
        seg_view(final(seg)@) == seg_view(old(seg)@).push((word@, pos@)),
{
    seg.push((word.to_owned(), pos.to_owned()));
    assert(seg_view(seg@) =~= seg_view(old(seg)@).push((word@, pos@)));
}

/// Appends `text` to the last word.
fn glue_last(seg: &mut Vec<(String, String)>, text: &str)
    requires
        old(seg)@.len() > 0,
    ensures
        seg_view(final(seg)@) == glue(seg_view(old(seg)@), text@),
{
    if let Some(last) = seg.pop() {
        let mut word = last.0;
        word.push_str(text);
        seg.push((word, last.1));
    }
    assert(seg_view(seg@) =~= glue(seg_view(old(seg)@), text@));
}

/// The first tone, or 0.
fn first_tone_of(tones: &Vec<u32>) -> (r: u32)
    ensures
        r == first_tone(tones@),
{
    assert(tones@.skip(0) =~= tones@);
    for i in 0..tones.len()
        invariant
            first_tone(tones@.skip(i as int)) == first_tone(tones@),
    {
        if tones[i] > 0 {
            return tones[i];
        }
        assert(tones@.skip(i as int).skip(1) =~= tones@.skip(i + 1));
    }
    0
}

/// The last tone, or 0.
fn last_tone_of(tones: &Vec<u32>) -> (r: u32)
    ensures
        r == last_tone(tones@),
{
    let mut i: usize = tones.len();
    assert(tones@.take(i as int) =~= tones@);
    while i > 0
        invariant
            i <= tones@.len(),
            last_tone(tones@.take(i as int)) == last_tone(tones@),
        decreases i,
    {
        if tones[i - 1] > 0 {
            return tones[i - 1];
        }
        assert(tones@.take(i as int).drop_last() =~= tones@.take(i - 1));
        i = i - 1;
    }
    0
}

impl ToneSandhi {
    /// Joins "不" with the word that follows it.
    pub fn merge_bu(seg: &Vec<(String, String)>) -> (r: Vec<(String, String)>)
        ensures
            seg_view(r@) == merged_bu(seg_view(seg@)),
    {
        let mut done: Vec<(String, String)> = Vec::new();
        let mut last = String::new();
        let ghost all = seg_view(seg@);
        assert(seg_view(done@) =~= Seq::empty());
        for i in 0..seg.len()
            invariant
                all == seg_view(seg@),
                (seg_view(done@), last@) == bu_joined(all, i as nat),
        {
            assert(all[i as int] == (seg@[i as int].0@, seg@[i as int].1@));
            let mut word = String::new();
            if same(last.as_str(), "不") {
                word.push_str("不");
            }
            word.push_str(seg[i].0.as_str());
            proof {
                let plain = seg@[i as int].0@;
                assert(Seq::<char>::empty() + plain =~= plain);
                assert(Seq::<char>::empty() + "不"@ =~= "不"@);
            }
            if !same(word.as_str(), "不") {
                push_word(&mut done, word.as_str(), seg[i].1.as_str());
            }
            last = word;
        }
        if same(last.as_str(), "不") {
            push_word(&mut done, "不", "d");
        }
        done
    }

    /// Joins a verb, "一" and the same verb, then "一" with the word that follows it.
    pub fn merge_yi(seg: &Vec<(String, String)>) -> (r: Vec<(String, String)>)
        ensures
            seg_view(r@) == merged_yi(seg_view(seg@)),
    {
        let mut repeated: Vec<(String, String)> = Vec::new();
        let ghost all = seg_view(seg@);
        assert(seg_view(repeated@) =~= Seq::empty());
        let mut i: usize = 0;
        while i < seg.len()
            invariant
                i <= seg@.len(),
                all == seg_view(seg@),
                yi_repetitions(all, seg_view(repeated@), i as int) == yi_repetitions(
                    all,
                    Seq::empty(),
                    0,
                ),
            decreases seg@.len() - i,
        {
            assert(all[i as int] == (seg@[i as int].0@, seg@[i as int].1@));
            if i >= 1 && i + 1 < seg.len() && repeated.len() > 0 && same(seg[i].0.as_str(), "一") {
                let last = &repeated[repeated.len() - 1];
                assert(seg_view(repeated@).last() == (last.0@, last.1@));
                assert(all[i + 1] == (seg@[i + 1].0@, seg@[i + 1].1@));
                if same(last.0.as_str(), seg[i + 1].0.as_str()) && same(last.1.as_str(), "v")
                    && same(seg[i + 1].1.as_str(), "v") {
                    let mut text = String::new();
                    text.push_str("一");
                    text.push_str(seg[i + 1].0.as_str());
                    assert(text@ =~= "一"@ + seg@[i + 1].0@);
                    glue_last(&mut repeated, text.as_str());
                    i = i + 2;
                    continue;
                }
            }
            push_word(&mut repeated, seg[i].0.as_str(), seg[i].1.as_str());
            i = i + 1;
        }
        let ghost words = seg_view(repeated@);
        let mut done: Vec<(String, String)> = Vec::new();
        assert(seg_view(done@) =~= Seq::empty());
        for k in 0..repeated.len()
            invariant
                words == seg_view(repeated@),
                seg_view(done@) == yi_joined(words, k as nat),
        {
            assert(words[k as int] == (repeated@[k as int].0@, repeated@[k as int].1@));
            assert(done@.len() > 0 ==> seg_view(done@).last() == (done@.last().0@, done@.last().1@));
            if done.len() > 0 && same(done[done.len() - 1].0.as_str(), "一") {
                glue_last(&mut done, repeated[k].0.as_str());
            } else {
                push_word(&mut done, repeated[k].0.as_str(), repeated[k].1.as_str());
            }
        }
        done
    }

    /// Joins a word with an equal one before it.
    pub fn merge_reduplication(seg: &Vec<(String, String)>) -> (r: Vec<(String, String)>)
        ensures
            seg_view(r@) == doubles_joined(seg_view(seg@), seg@.len()),
    {
        let mut done: Vec<(String, String)> = Vec::new();
        let ghost all = seg_view(seg@);
        assert(seg_view(done@) =~= Seq::empty());
        for i in 0..seg.len()
            invariant
                all == seg_view(seg@),
                seg_view(done@) == doubles_joined(all, i as nat),
        {
            assert(all[i as int] == (seg@[i as int].0@, seg@[i as int].1@));
            assert(done@.len() > 0 ==> seg_view(done@).last() == (done@.last().0@, done@.last().1@));
            if done.len() > 0 && same(done[done.len() - 1].0.as_str(), seg[i].0.as_str()) {
                glue_last(&mut done, seg[i].0.as_str());
            } else {
                push_word(&mut done, seg[i].0.as_str(), seg[i].1.as_str());
            }
        }
        done
    }

    /// Joins short neighbours where third tones meet: throughout both words (`whole`), or at
    /// the seam.
    fn merge_third_tones(seg: &Vec<(String, String)>, whole: bool) -> (r: Vec<(String, String)>)
        ensures
            seg_view(r@) == thirds_joined(seg_view(seg@), seg@.len(), whole).0,
    {
        let mut done: Vec<(String, String)> = Vec::new();
        let mut joined = false;
        let ghost all = seg_view(seg@);
        assert(seg_view(done@) =~= Seq::empty());
        for i in 0..seg.len()
            invariant
                all == seg_view(seg@),
                (seg_view(done@), joined) == thirds_joined(all, i as nat, whole),
        {
            assert(all[i as int] == (seg@[i as int].0@, seg@[i as int].1@));
            let mut meet = false;
            if i >= 1 && !joined {
                assert(all[i - 1] == (seg@[i - 1].0@, seg@[i - 1].1@));
                let before = Self::word_tones(seg[i - 1].0.as_str());
                let tones = Self::word_tones(seg[i].0.as_str());
                let thirds = if whole {
                    Self::all_tone_three(before.as_slice()) && Self::all_tone_three(tones.as_slice())
                } else {
                    last_tone_of(&before) == 3 && first_tone_of(&tones) == 3
                };
                if thirds && !Self::is_reduplication(seg[i - 1].0.as_str()) {
                    let before_len: usize = chars_of(seg[i - 1].0.as_str()).len();
                    let len: usize = chars_of(seg[i].0.as_str()).len();
                    meet = before_len <= 3 && len <= 3 - before_len;
                }
            }
            if meet {
                proof {
                    lemma_thirds_text(all, i as nat, whole);
                }
                glue_last(&mut done, seg[i].0.as_str());
                joined = true;
            } else {
                push_word(&mut done, seg[i].0.as_str(), seg[i].1.as_str());
                joined = false;
            }
        }
        done
    }

    /// Joins neighbours of third tones only, three characters together at most.
    pub fn merge_continuous_three_tones(seg: &Vec<(String, String)>) -> (r: Vec<(String, String)>)
        ensures
            seg_view(r@) == thirds_joined(seg_view(seg@), seg@.len(), true).0,
    {
        Self::merge_third_tones(seg, true)
    }

    /// Joins neighbours that meet in third tones, three characters together at most.
    pub fn merge_continuous_three_tones_2(seg: &Vec<(String, String)>) -> (r: Vec<
        (String, String),
    >)
        ensures
            seg_view(r@) == thirds_joined(seg_view(seg@), seg@.len(), false).0,
    {
        Self::merge_third_tones(seg, false)
    }

    /// Joins "儿" with the word before it.
    pub fn merge_er(seg: &Vec<(String, String)>) -> (r: Vec<(String, String)>)
        ensures
            seg_view(r@) == er_joined(seg_view(seg@), seg@.len()),
    {
        let mut done: Vec<(String, String)> = Vec::new();
        let ghost all = seg_view(seg@);
        assert(seg_view(done@) =~= Seq::empty());
        for i in 0..seg.len()
            invariant
                all == seg_view(seg@),
                seg_view(done@) == er_joined(all, i as nat),
        {
            assert(all[i as int] == (seg@[i as int].0@, seg@[i as int].1@));
            assert(i >= 1 ==> all[i - 1] == (seg@[i - 1].0@, seg@[i - 1].1@));
            if i >= 1 && same(seg[i].0.as_str(), "儿") && !same(seg[i - 1].0.as_str(), "#") {
                proof {
                    lemma_er_text(all, i as nat);
                }
                glue_last(&mut done, seg[i].0.as_str());
            } else {
                push_word(&mut done, seg[i].0.as_str(), seg[i].1.as_str());
            }
        }
        done
    }

    /// Runs all joining passes.
    pub fn pre_merge_for_modify(&self, seg: Vec<(String, String)>) -> (r: Vec<(String, String)>)
        ensures
            seg_view(r@) == pre_merged(seg_view(seg@)),
    {
        let seg = Self::merge_bu(&seg);
        let seg = Self::merge_yi(&seg);
        let seg = Self::merge_reduplication(&seg);
        let seg = Self::merge_continuous_three_tones(&seg);
        let seg = Self::merge_continuous_three_tones_2(&seg);
        Self::merge_er(&seg)
    }
}

/// Whether a segmentation can be cut between two words as far as a waiting word goes: the word
/// before the cut is neither empty nor the one that waits.
pub open spec fn ends_without(seg: Seq<(Seq<char>, Seq<char>)>, word: Seq<char>) -> bool {
    seg.len() > 0 ==> seg.last().0.len() > 0 && seg.last().0 != word
}

proof fn lemma_bu_prefix(
    a: Seq<(Seq<char>, Seq<char>)>,
    b: Seq<(Seq<char>, Seq<char>)>,
    k: nat,
)
    requires
        k <= a.len(),
    ensures
        bu_joined(a + b, k) == bu_joined(a, k),
    decreases k,
{
    if k > 0 {
        lemma_bu_prefix(a, b, (k - 1) as nat);
        assert((a + b)[k - 1] == a[k - 1]);
    }
}

proof fn lemma_bu_suffix(
    a: Seq<(Seq<char>, Seq<char>)>,
    b: Seq<(Seq<char>, Seq<char>)>,
    k: nat,
)
    requires
        ends_without(a, "不"@),
        k <= b.len(),
    ensures
        bu_joined(a + b, a.len() + k).0 == bu_joined(a, a.len()).0 + bu_joined(b, k).0,
        k > 0 ==> bu_joined(a + b, a.len() + k).1 == bu_joined(b, k).1,
        bu_joined(a, a.len()).1 != "不"@,
    decreases k,
{
    reveal_strlit("不");
    if a.len() > 0 {
        let last = bu_joined(a, a.len()).1;
        assert(last == a.last().0 || last == "不"@ + a.last().0);
        assert("不"@.len() == 1);
        assert(("不"@ + a.last().0).len() > 1);
        assert(last != "不"@);
    } else {
        assert(bu_joined(a, a.len()).1.len() == 0);
        assert("不"@.len() == 1);
    }
    lemma_bu_prefix(a, b, a.len());
    if k == 0 {
        assert(bu_joined(a, a.len()).0 + bu_joined(b, k).0 =~= bu_joined(a, a.len()).0);
    } else {
        lemma_bu_suffix(a, b, (k - 1) as nat);
        assert((a + b)[a.len() + k - 1] == b[k - 1]);
        assert(bu_joined(a + b, a.len() + k).0 =~= bu_joined(a, a.len()).0 + bu_joined(b, k).0);
    }
}

/// Words are joined with "不" part by part, where the text is not cut behind a "不".
pub proof fn bu_is_joined_part_by_part(
    a: Seq<(Seq<char>, Seq<char>)>,
    b: Seq<(Seq<char>, Seq<char>)>,
)
    requires
        ends_without(a, "不"@),
    ensures
        merged_bu(a + b) == merged_bu(a) + merged_bu(b),
{
    reveal_strlit("不");
    lemma_bu_suffix(a, b, b.len());
    let front = bu_joined(a, a.len()).0;
    let (back, last) = bu_joined(b, b.len());
    assert(merged_bu(a) == front);
    if b.len() == 0 {
        assert(a + b =~= a);
        assert("不"@.len() == 1);
        assert(merged_bu(b) =~= Seq::empty());
        assert(front + merged_bu(b) =~= front);
    } else {
        assert((a + b).len() == a.len() + b.len());
        assert((front + back).push(("不"@, "d"@)) =~= front + back.push(("不"@, "d"@)));
    }
}

/// "不" goes with the word behind it, whose kind the joined word is of; any other word stays as
/// it is, and a "不" with no word behind it is an adverb.
pub proof fn bu_goes_with_the_next_word(
    word: Seq<char>,
    kind: Seq<char>,
    other: Seq<char>,
)
    requires
        word.len() > 0,
    ensures
        merged_bu(seq![(seq!['不'], other), (word, kind)]) == seq![(seq!['不'] + word, kind)],
        word != seq!['不'] ==> merged_bu(seq![(word, kind)]) == seq![(word, kind)],
        merged_bu(seq![(seq!['不'], other)]) == seq![(seq!['不'], seq!['d'])],
        merged_bu(Seq::empty()) == Seq::<(Seq<char>, Seq<char>)>::empty(),
{
    reveal_strlit("不");
    reveal_strlit("d");
    assert("不"@ =~= seq!['不']);
    assert("d"@ =~= seq!['d']);
    reveal_with_fuel(bu_joined, 3);
    assert((seq!['不'] + word).len() > 1);
    assert(merged_bu(seq![(seq!['不'], other), (word, kind)]) =~= seq![
        (seq!['不'] + word, kind),
    ]);
    assert(merged_bu(seq![(word, kind)]) =~= if word != seq!['不'] {
        seq![(word, kind)]
    } else {
        merged_bu(seq![(word, kind)])
    });
    assert(merged_bu(seq![(seq!['不'], other)]) =~= seq![(seq!['不'], seq!['d'])]);
}

proof fn lemma_yi_split(
    a: Seq<(Seq<char>, Seq<char>)>,
    b: Seq<(Seq<char>, Seq<char>)>,
    k: nat,
)
    requires
        k <= a.len(),
    ensures
        yi_joined(a + b, k) == yi_joined(a, k),
    decreases k,
{
    if k > 0 {
        lemma_yi_split(a, b, (k - 1) as nat);
        assert((a + b)[k - 1] == a[k - 1]);
    }
}

proof fn lemma_yi_last(seg: Seq<(Seq<char>, Seq<char>)>, k: nat)
    requires
        0 < k <= seg.len(),
        seg[k - 1].0.len() > 0,
    ensures
        yi_joined(seg, k).len() > 0,
        yi_joined(seg, k).last().0 == "一"@ ==> seg[k - 1].0 == "一"@,
{
    reveal_strlit("一");
    let done = yi_joined(seg, (k - 1) as nat);
    if done.len() > 0 && done.last().0 == "一"@ {
        let joined = "一"@ + seg[k - 1].0;
        assert(glue(done, seg[k - 1].0).last().0 == joined);
        assert(joined.len() > 1);
    }
}

proof fn lemma_yi_parts(
    a: Seq<(Seq<char>, Seq<char>)>,
    b: Seq<(Seq<char>, Seq<char>)>,
    k: nat,
)
    requires
        ends_without(a, "一"@),
        k <= b.len(),
    ensures
        yi_joined(a + b, a.len() + k) == yi_joined(a, a.len()) + yi_joined(b, k),
        k > 0 ==> yi_joined(b, k).len() > 0,
    decreases k,
{
    lemma_yi_split(a, b, a.len());
    let front = yi_joined(a, a.len());
    if a.len() > 0 {
        lemma_yi_last(a, a.len());
    }
    if k == 0 {
        assert(front + yi_joined(b, k) =~= front);
    } else {
        lemma_yi_parts(a, b, (k - 1) as nat);
        let back = yi_joined(b, (k - 1) as nat);
        assert((a + b)[a.len() + k - 1] == b[k - 1]);
        if back.len() > 0 {
            assert((front + back).last() == back.last());
            assert(glue(front + back, b[k - 1].0) =~= front + glue(back, b[k - 1].0));
        } else {
            assert(front + back =~= front);
        }
        assert((front + back).push(b[k - 1]) =~= front + back.push(b[k - 1]));
    }
}

/// Words are joined with "一" part by part, where the text is not cut behind a "一".
pub proof fn yi_is_joined_part_by_part(
    a: Seq<(Seq<char>, Seq<char>)>,
    b: Seq<(Seq<char>, Seq<char>)>,
)
    requires
        ends_without(a, "一"@),
    ensures
        yi_joined(a + b, (a + b).len()) == yi_joined(a, a.len()) + yi_joined(b, b.len()),
{
    lemma_yi_parts(a, b, b.len());
}

/// "一" goes with the word behind it and keeps its own kind; any other word stays as it is.
pub proof fn yi_goes_with_the_next_word(
    word: Seq<char>,
    kind: Seq<char>,
    other: Seq<char>,
)
    ensures
        yi_joined(seq![(seq!['一'], other), (word, kind)], 2) == seq![
            (seq!['一'] + word, other),
        ],
        yi_joined(seq![(word, kind)], 1) == seq![(word, kind)],
        merged_yi(seq![(word, kind)]) == seq![(word, kind)],
{
    reveal_strlit("一");
    assert("一"@ =~= seq!['一']);
    reveal_with_fuel(yi_joined, 3);
    assert(yi_joined(seq![(seq!['一'], other), (word, kind)], 1) =~= seq![(seq!['一'], other)]);
    assert(yi_joined(seq![(seq!['一'], other), (word, kind)], 2) =~= seq![
        (seq!['一'] + word, other),
    ]);
    assert(yi_joined(seq![(word, kind)], 1) =~= seq![(word, kind)]);
    let one = seq![(word, kind)];
    let none = Seq::<(Seq<char>, Seq<char>)>::empty();
    assert(none.push(one[0]) =~= one);
    assert(yi_repetitions(one, one, 1) == one);
    assert(yi_repetitions(one, none, 0) == one);
}

/// A verb, "一" and the same verb are one word, a verb; where the words differ or one is no verb,
/// "一" goes with the second one only.
pub proof fn repeated_verbs_are_one_word(
    first: Seq<char>,
    kind: Seq<char>,
    second: Seq<char>,
    other: Seq<char>,
    yi: Seq<char>,
)
    requires
        first != seq!['一'],
        first.len() > 0,
    ensures
        first == second && kind == seq!['v'] && other == seq!['v'] ==> merged_yi(
            seq![(first, kind), (seq!['一'], yi), (second, other)],
        ) == seq![(first + seq!['一'] + first, seq!['v'])],
        first != second || kind != seq!['v'] || other != seq!['v'] ==> merged_yi(
            seq![(first, kind), (seq!['一'], yi), (second, other)],
        ) == seq![(first, kind), (seq!['一'] + second, yi)],
{
    reveal_strlit("一");
    reveal_strlit("v");
    assert("一"@ =~= seq!['一']);
    assert("v"@ =~= seq!['v']);
    let seg = seq![(first, kind), (seq!['一'], yi), (second, other)];
    let none = Seq::<(Seq<char>, Seq<char>)>::empty();
    let one = seq![(first, kind)];
    assert(none.push(seg[0]) =~= one);
    assert(yi_repetitions(seg, none, 0) == yi_repetitions(seg, one, 1));
    if first == second && kind == seq!['v'] && other == seq!['v'] {
        let joined = glue(one, "一"@ + second);
        assert(yi_repetitions(seg, one, 1) == yi_repetitions(seg, joined, 3));
        assert(first + ("一"@ + second) =~= first + seq!['一'] + first);
        assert(joined =~= seq![(first + seq!['一'] + first, seq!['v'])]);
        reveal_with_fuel(yi_joined, 2);
        assert(yi_joined(joined, 1) =~= joined);
    } else {
        let two = seq![(first, kind), (seq!['一'], yi)];
        assert(one.push(seg[1]) =~= two);
        assert(two.push(seg[2]) =~= seg);
        assert(yi_repetitions(seg, one, 1) == yi_repetitions(seg, two, 2));
        assert(yi_repetitions(seg, two, 2) == yi_repetitions(seg, seg, 3));
        assert(yi_repetitions(seg, none, 0) == seg);
        assert(yi_joined(seg, 0) =~= none);
        assert(yi_joined(seg, 1) =~= one);
        assert(yi_joined(seg, 2) =~= two);
        assert(yi_joined(seg, 3) =~= seq![(first, kind), (seq!['一'] + second, yi)]);
    }
}

/// Two equal neighbours are one word, of the kind of the first; two that differ stay apart.
pub proof fn equal_neighbours_are_one_word(
    first: Seq<char>,
    kind: Seq<char>,
    second: Seq<char>,
    other: Seq<char>,
)
    ensures
        first == second ==> doubles_joined(seq![(first, kind), (second, other)], 2) == seq![
            (first + second, kind),
        ],
        first != second ==> doubles_joined(seq![(first, kind), (second, other)], 2) == seq![
            (first, kind),
            (second, other),
        ],
{
    let seg = seq![(first, kind), (second, other)];
    assert(doubles_joined(seg, 0) =~= Seq::empty());
    assert(doubles_joined(seg, 1) =~= seq![(first, kind)]);
    assert(doubles_joined(seg, 2) =~= if first == second {
        seq![(first + second, kind)]
    } else {
        seg
    });
}

/// A segmentation without equal neighbours stays as it is.
pub proof fn words_without_equal_neighbours_stay(seg: Seq<(Seq<char>, Seq<char>)>, k: nat)
    requires
        k <= seg.len(),
        forall|i: int, j: int|
            0 <= i && j == i + 1 && j < seg.len() ==> (#[trigger] seg[i]).0 != (#[trigger] seg[j]).0,
    ensures
        doubles_joined(seg, k) == seg.take(k as int),
    decreases k,
{
    if k > 0 {
        words_without_equal_neighbours_stay(seg, (k - 1) as nat);
        if k > 1 {
            assert(seg[k - 2].0 != seg[k - 1].0);
        }
        assert(seg.take(k - 1).push(seg[k - 1]) =~= seg.take(k as int));
    } else {
        assert(seg.take(0) =~= Seq::empty());
    }
}

/// Two words of at most three characters that have third tones throughout, or where they meet,
/// are one word, unless the first is a doubled character; others stay apart.
pub proof fn third_tone_neighbours_are_one_word(
    first: Seq<char>,
    kind: Seq<char>,
    second: Seq<char>,
    other: Seq<char>,
    whole: bool,
)
    ensures
        ({
            let meet = if whole {
                only_third_tones(tones_of(first)) && only_third_tones(tones_of(second))
            } else {
                last_tone(tones_of(first)) == 3 && first_tone(tones_of(second)) == 3
            };
            let doubled = first.len() == 2 && first[0] == first[1];
            thirds_joined(seq![(first, kind), (second, other)], 2, whole).0 == if meet && !doubled
                && first.len() + second.len() <= 3 {
                seq![(first + second, kind)]
            } else {
                seq![(first, kind), (second, other)]
            }
        }),
{
    let seg = seq![(first, kind), (second, other)];
    assert(thirds_joined(seg, 0, whole).0 =~= Seq::empty());
    assert(thirds_joined(seg, 1, whole).0 =~= seq![(first, kind)]);
    assert(thirds_joined(seg, 2, whole).0 =~= if third_tones_meet(seg, 1, whole) {
        seq![(first + second, kind)]
    } else {
        seg
    });
}

/// No word is joined to one that was itself joined for its third tones.
pub proof fn joined_third_tones_stay_apart(
    seg: Seq<(Seq<char>, Seq<char>)>,
    k: nat,
    whole: bool,
)
    requires
        0 < k < seg.len(),
        thirds_joined(seg, k, whole).1,
    ensures
        thirds_joined(seg, k + 1, whole).0 == thirds_joined(seg, k, whole).0.push(seg[k as int]),
        !thirds_joined(seg, k + 1, whole).1,
{
}

/// The first tone of a word is the first that is not zero, and its last tone the last such one.
pub proof fn tones_at_the_ends(before: Seq<u32>, tone: u32, behind: Seq<u32>)
    requires
        tone > 0,
    ensures
        (forall|i: int| 0 <= i < before.len() ==> #[trigger] before[i] == 0) ==> first_tone(
            before.push(tone) + behind,
        ) == tone,
        (forall|i: int| 0 <= i < behind.len() ==> #[trigger] behind[i] == 0) ==> last_tone(
            before.push(tone) + behind,
        ) == tone,
    decreases before.len() + behind.len(),
{
    let all = before.push(tone) + behind;
    if before.len() > 0 && (forall|i: int| 0 <= i < before.len() ==> #[trigger] before[i] == 0) {
        assert(all[0] == before[0]);
        assert(all.skip(1) =~= before.skip(1).push(tone) + behind);
        assert forall|i: int| 0 <= i < before.skip(1).len() implies #[trigger] before.skip(1)[i]
            == 0 by {
            assert(before[i + 1] == 0);
        }
        tones_at_the_ends(before.skip(1), tone, behind);
    }
    if behind.len() > 0 && (forall|i: int| 0 <= i < behind.len() ==> #[trigger] behind[i] == 0) {
        assert(all.last() == behind.last());
        assert(all.drop_last() =~= before.push(tone) + behind.drop_last());
        assert forall|i: int| 0 <= i < behind.drop_last().len() implies #[trigger] behind.drop_last()[i]
            == 0 by {
            assert(behind[i] == 0);
        }
        tones_at_the_ends(before, tone, behind.drop_last());
    }
}

proof fn lemma_er_prefix(
    a: Seq<(Seq<char>, Seq<char>)>,
    b: Seq<(Seq<char>, Seq<char>)>,
    k: nat,
)
    requires
        k <= a.len(),
    ensures
        er_joined(a + b, k) == er_joined(a, k),
    decreases k,
{
    if k > 0 {
        lemma_er_prefix(a, b, (k - 1) as nat);
        assert((a + b)[k - 1] == a[k - 1]);
        if k > 1 {
            assert((a + b)[k - 2] == a[k - 2]);
        }
    }
}

/// "儿" goes with the word before it, part by part where the text is not cut before a "儿".
pub proof fn er_is_joined_part_by_part(
    a: Seq<(Seq<char>, Seq<char>)>,
    b: Seq<(Seq<char>, Seq<char>)>,
    k: nat,
)
    requires
        k <= b.len(),
        b.len() > 0 ==> b[0].0 != "儿"@,
    ensures
        er_joined(a + b, a.len() + k) == er_joined(a, a.len()) + er_joined(b, k),
        k > 0 ==> er_joined(b, k).len() > 0,
    decreases k,
{
    lemma_er_prefix(a, b, a.len());
    let front = er_joined(a, a.len());
    if k == 0 {
        assert(front + er_joined(b, k) =~= front);
    } else {
        er_is_joined_part_by_part(a, b, (k - 1) as nat);
        let back = er_joined(b, (k - 1) as nat);
        assert((a + b)[a.len() + k - 1] == b[k - 1]);
        if k > 1 {
            assert((a + b)[a.len() + k - 2] == b[k - 2]);
            assert(glue(front + back, b[k - 1].0) =~= front + glue(back, b[k - 1].0));
        }
        assert((front + back).push(b[k - 1]) =~= front + back.push(b[k - 1]));
    }
}

/// "儿" and the word before it are one word of that word's kind, unless it is "#"; any other word
/// stays apart.
pub proof fn er_goes_with_the_word_before(
    first: Seq<char>,
    kind: Seq<char>,
    second: Seq<char>,
    other: Seq<char>,
)
    ensures
        er_joined(seq![(first, kind), (second, other)], 2) == if second == seq!['儿'] && first
            != seq!['#'] {
            seq![(first + seq!['儿'], kind)]
        } else {
            seq![(first, kind), (second, other)]
        },
{
    reveal_strlit("儿");
    reveal_strlit("#");
    assert("儿"@ =~= seq!['儿']);
    assert("#"@ =~= seq!['#']);
    let seg = seq![(first, kind), (second, other)];
    assert(er_joined(seg, 0) =~= Seq::empty());
    assert(er_joined(seg, 1) =~= seq![(first, kind)]);
    assert(er_joined(seg, 2) =~= if second == seq!['儿'] && first != seq!['#'] {
        seq![(first + seq!['儿'], kind)]
    } else {
        seg
    });
}

} // verus!
