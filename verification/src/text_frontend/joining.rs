//! Words that join consecutive words.

use crate::strings::concat;
use vstd::prelude::*;

verus! {

/// Whether each of the joined words is one or more consecutive words, one after the other, and
/// together they are all of them.
pub open spec fn joins(words: Seq<Seq<char>>, joined: Seq<Seq<char>>) -> bool
    decreases joined.len(),
{
    if joined.len() == 0 {
        words.len() == 0
    } else {
        exists|k: int|
            0 <= k < words.len() && joins(#[trigger] words.take(k), joined.drop_last())
                && joined.last() == concat(words.skip(k))
    }
}

/// The words in front of those that the last joined word is made of.
pub open spec fn last_start(words: Seq<Seq<char>>, joined: Seq<Seq<char>>) -> int {
    choose|k: int|
        0 <= k < words.len() && joins(#[trigger] words.take(k), joined.drop_last())
            && joined.last() == concat(words.skip(k))
}

pub proof fn lemma_concat_word(words: Seq<Seq<char>>, word: Seq<char>)
    ensures
        concat(words.push(word)) == concat(words) + word,
{
    assert(words.push(word).drop_last() =~= words);
}

pub proof fn lemma_concat_add(a: Seq<Seq<char>>, b: Seq<Seq<char>>)
    ensures
        concat(a + b) == concat(a) + concat(b),
    decreases b.len(),
{
    if b.len() == 0 {
        assert(a + b =~= a);
        assert(concat(a) + Seq::<char>::empty() =~= concat(a));
    } else {
        lemma_concat_add(a, b.drop_last());
        assert((a + b).drop_last() =~= a + b.drop_last());
        assert(concat(a) + concat(b.drop_last()) + b.last() =~= concat(a) + (concat(b.drop_last())
            + b.last()));
    }
}

/// A word made of all words from a place on.
pub proof fn lemma_joins_from(words: Seq<Seq<char>>, joined: Seq<Seq<char>>, k: int)
    requires
        0 <= k < words.len(),
        joins(words.take(k), joined),
    ensures
        joins(words, joined.push(concat(words.skip(k)))),
{
    let more = joined.push(concat(words.skip(k)));
    assert(more.drop_last() =~= joined);
}

/// A word that stays as it is.
pub proof fn lemma_joins_push(words: Seq<Seq<char>>, joined: Seq<Seq<char>>, word: Seq<char>)
    requires
        joins(words, joined),
    ensures
        joins(words.push(word), joined.push(word)),
{
    let k = words.len() as int;
    assert(words.push(word).take(k) =~= words);
    assert(words.push(word).skip(k) =~= Seq::empty().push(word));
    lemma_concat_word(Seq::empty(), word);
    assert(concat(Seq::empty()) + word =~= word);
    lemma_joins_from(words.push(word), joined, k);
}

/// A word that goes with the last joined one.
pub proof fn lemma_joins_glue(words: Seq<Seq<char>>, joined: Seq<Seq<char>>, word: Seq<char>)
    requires
        joins(words, joined),
        joined.len() > 0,
    ensures
        joins(words.push(word), joined.update(joined.len() - 1, joined.last() + word)),
{
    let k = last_start(words, joined);
    assert(words.push(word).take(k) =~= words.take(k));
    assert(words.push(word).skip(k) =~= words.skip(k).push(word));
    lemma_concat_word(words.skip(k), word);
    lemma_joins_from(words.push(word), joined.drop_last(), k);
    assert(joined.update(joined.len() - 1, joined.last() + word) =~= joined.drop_last().push(
        joined.last() + word,
    ));
}

/// Joined words spell the same text and are no more than the words.
pub proof fn lemma_joins_text(words: Seq<Seq<char>>, joined: Seq<Seq<char>>)
    requires
        joins(words, joined),
    ensures
        concat(joined) == concat(words),
        joined.len() <= words.len(),
    decreases joined.len(),
{
    if joined.len() > 0 {
        let k = last_start(words, joined);
        lemma_joins_text(words.take(k), joined.drop_last());
        lemma_concat_add(words.take(k), words.skip(k));
        assert(words.take(k) + words.skip(k) =~= words);
    }
}

/// Where joined words are parted, so can the words be.
proof fn lemma_joins_parts(words: Seq<Seq<char>>, joined: Seq<Seq<char>>, k: int) -> (m: int)
    requires
        joins(words, joined),
        0 <= k <= joined.len(),
    ensures
        0 <= m <= words.len(),
        k < joined.len() ==> m < words.len(),
        joins(words.take(m), joined.take(k)),
        joins(words.skip(m), joined.skip(k)),
    decreases joined.len(),
{
    if k == joined.len() {
        assert(words.take(words.len() as int) =~= words);
        assert(joined.take(k) =~= joined);
        words.len() as int
    } else {
        let j = last_start(words, joined);
        let m = lemma_joins_parts(words.take(j), joined.drop_last(), k);
        assert(words.take(j).take(m) =~= words.take(m));
        assert(joined.drop_last().take(k) =~= joined.take(k));
        assert(words.take(j).skip(m) =~= words.skip(m).take(j - m));
        assert(joined.drop_last().skip(k) =~= joined.skip(k).drop_last());
        assert(words.skip(m).skip(j - m) =~= words.skip(j));
        assert(joined.skip(k).last() == joined.last());
        m
    }
}

/// What joins joined words joins the words.
pub proof fn lemma_joins_again(
    words: Seq<Seq<char>>,
    joined: Seq<Seq<char>>,
    again: Seq<Seq<char>>,
)
    requires
        joins(words, joined),
        joins(joined, again),
    ensures
        joins(words, again),
    decreases again.len(),
{
    if again.len() > 0 {
        let k = last_start(joined, again);
        let m = lemma_joins_parts(words, joined, k);
        lemma_joins_again(words.take(m), joined.take(k), again.drop_last());
        lemma_joins_text(words.skip(m), joined.skip(k));
        lemma_joins_from(words, again.drop_last(), m);
        assert(again.drop_last().push(again.last()) =~= again);
    }
}

} // verus!
