//! Choosing the next token: what the scores decide by their order. Scores, probabilities and
//! their sums come in as single-precision numbers.

use crate::float_bits::{is_nan, less, rank, F32};
use vstd::prelude::*;

verus! {

/// The bit pattern of the number that is less than every other.
pub const LOWEST_BITS: u32 = 0xFF80_0000;

/// The number that is less than every other.
pub open spec fn lowest() -> F32 {
    F32 { bits: LOWEST_BITS }
}

/// Whether all of them are numbers.
pub open spec fn all_numbers(s: Seq<F32>) -> bool {
    forall|i: int| 0 <= i < s.len() ==> !is_nan(#[trigger] s[i])
}

/// Whether all of them are numbers.
pub fn are_numbers(values: &Vec<F32>) -> (r: bool)
    ensures
        r == all_numbers(values@),
{
    for i in 0..values.len()
        invariant
            forall|k: int| 0 <= k < i ==> !is_nan(#[trigger] values@[k]),
    {
        if values[i].nan() {
            return false;
        }
    }
    true
}

/// The place of the greatest score: the last one of equals, and 0 where there is none.
pub open spec fn argmax_of(s: Seq<F32>) -> int
    decreases s.len(),
{
    if s.len() <= 1 {
        0
    } else {
        let best = argmax_of(s.drop_last());
        if less(s.last(), s[best]) {
            best
        } else {
            s.len() - 1
        }
    }
}

proof fn lemma_argmax_in_range(s: Seq<F32>)
    ensures
        0 <= argmax_of(s),
        s.len() > 0 ==> argmax_of(s) < s.len(),
    decreases s.len(),
{
    if s.len() > 1 {
        lemma_argmax_in_range(s.drop_last());
    }
}

/// No score is greater than the greatest one, and none behind it is as great.
pub proof fn argmax_is_greatest(s: Seq<F32>)
    requires
        s.len() > 0,
        all_numbers(s),
    ensures
        0 <= argmax_of(s) < s.len(),
        forall|i: int| 0 <= i < s.len() ==> rank(#[trigger] s[i]) <= rank(s[argmax_of(s)]),
        forall|i: int| argmax_of(s) < i < s.len() ==> rank(#[trigger] s[i]) < rank(s[argmax_of(s)]),
    decreases s.len(),
{
    if s.len() > 1 {
        let rest = s.drop_last();
        assert forall|i: int| 0 <= i < rest.len() implies !is_nan(#[trigger] rest[i]) by {
            assert(rest[i] == s[i]);
        }
        argmax_is_greatest(rest);
        assert forall|i: int| 0 <= i < s.len() implies rank(#[trigger] s[i]) <= rank(
            s[argmax_of(s)],
        ) by {
            if i < rest.len() {
                assert(rest[i] == s[i]);
            }
        }
        assert forall|i: int| argmax_of(s) < i < s.len() implies rank(#[trigger] s[i]) < rank(
            s[argmax_of(s)],
        ) by {
            if i < rest.len() {
                assert(rest[i] == s[i]);
            }
        }
    }
}

/// The place of the greatest score.
pub fn argmax(values: &Vec<F32>) -> (r: usize)
    ensures
        r == argmax_of(values@),
        values@.len() > 0 ==> r < values@.len(),
{
    let mut best: usize = 0;
    let mut i: usize = 1;
    while i < values.len()
        invariant
            1 <= i,
            i <= values@.len() || values@.len() == 0,
            best == argmax_of(values@.take(i as int)) || values@.len() == 0,
            best < i,
            values@.len() == 0 ==> best == 0 && i == 1,
        decreases values@.len() - i,
    {
        assert(values@.take(i + 1).drop_last() =~= values@.take(i as int));
        if !values[i].lt(values[best]) {
            best = i;
        }
        i = i + 1;
    }
    if values.len() > 0 {
        assert(values@.take(i as int) =~= values@);
    }
    best
}

/// The tokens below a bound, each where it occurs first.
pub open spec fn distinct_below(tokens: Seq<usize>, bound: nat) -> Seq<usize>
    decreases tokens.len(),
{
    if tokens.len() == 0 {
        Seq::empty()
    } else {
        let before = distinct_below(tokens.drop_last(), bound);
        if tokens.last() < bound && !before.contains(tokens.last()) {
            before.push(tokens.last())
        } else {
            before
        }
    }
}

/// The tokens whose scores are penalised for repetition: those of the prompt and those that
/// were generated, each once, as far as there is a score for them.
pub fn penalised_tokens(scores: usize, prompt: &Vec<usize>, generated: &Vec<usize>) -> (r: Vec<
    usize,
>)
    ensures
        r@ == distinct_below(prompt@ + generated@, scores as nat),
{
    let ghost all = prompt@ + generated@;
    let mut seen: Vec<bool> = Vec::new();
    for i in 0..scores
        invariant
            seen@.len() == i,
            forall|t: int| 0 <= t < i ==> !seen@[t],
    {
        seen.push(false);
    }
    let mut r: Vec<usize> = Vec::new();
    assert(forall|t: usize| t < scores ==> seen@[t as int] == r@.contains(t));
    for i in 0..prompt.len()
        invariant
            all == prompt@ + generated@,
            seen@.len() == scores,
            r@ == distinct_below(all.take(i as int), scores as nat),
            forall|t: usize| t < scores ==> seen@[t as int] == r@.contains(t),
    {
        let token: usize = prompt[i];
        assert(all.take(i + 1).drop_last() =~= all.take(i as int));
        assert(all.take(i + 1).last() == token);
        if token < scores && !seen[token] {
            note_token(token, &mut seen, &mut r);
        }
    }
    let first: usize = prompt.len();
    for k in 0..generated.len()
        invariant
            all == prompt@ + generated@,
            first == prompt@.len(),
            seen@.len() == scores,
            r@ == distinct_below(all.take(first + k), scores as nat),
            forall|t: usize| t < scores ==> seen@[t as int] == r@.contains(t),
    {
        let token: usize = generated[k];
        assert(all.take(first + k + 1).drop_last() =~= all.take(first + k));
        assert(all.take(first + k + 1).last() == token);
        if token < scores && !seen[token] {
            note_token(token, &mut seen, &mut r);
        }
    }
    assert(all.take(all.len() as int) =~= all);
    r
}

/// Notes a token that was not seen before.
fn note_token(token: usize, seen: &mut Vec<bool>, tokens: &mut Vec<usize>)
    requires
        token < old(seen)@.len(),
        forall|t: usize| t < old(seen)@.len() ==> old(seen)@[t as int] == old(tokens)@.contains(t),
    ensures
        final(tokens)@ == old(tokens)@.push(token),
        final(seen)@.len() == old(seen)@.len(),
        forall|t: usize|
            t < final(seen)@.len() ==> final(seen)@[t as int] == final(tokens)@.contains(t),
{
    let ghost before = tokens@;
    seen.set(token, true);
    tokens.push(token);
    assert forall|t: usize| t < seen@.len() implies seen@[t as int] == tokens@.contains(t) by {
        assert(tokens@[before.len() as int] == token);
        if before.contains(t) {
            let k = choose|k: int| 0 <= k < before.len() && before[k] == t;
            assert(tokens@[k] == t);
        }
        if tokens@.contains(t) && t != token {
            let k = choose|k: int| 0 <= k < tokens@.len() && tokens@[k] == t;
            assert(before[k] == t);
        }
    }
}

/// How many scores are greater than a score.
pub open spec fn greater_count(s: Seq<F32>, v: F32) -> nat
    decreases s.len(),
{
    if s.len() == 0 {
        0
    } else {
        greater_count(s.drop_last(), v) + (if less(v, s.last()) {
            1nat
        } else {
            0nat
        })
    }
}

/// Whether a score is among the `k` greatest, equals of the last of these included; where `k` is
/// 0 or there are no more scores than `k`, every score is.
pub open spec fn in_top_k(s: Seq<F32>, k: nat, i: int) -> bool {
    k == 0 || k >= s.len() || greater_count(s, s[i]) < k
}

/// The scores with all but the `k` greatest made lowest.
pub fn keep_top_k(values: &Vec<F32>, k: usize) -> (r: Vec<F32>)
    requires
        0 < k < values@.len() ==> all_numbers(values@),
    ensures
        r@.len() == values@.len(),
        forall|i: int|
            0 <= i < r@.len() ==> #[trigger] r@[i] == if in_top_k(values@, k as nat, i) {
                values@[i]
            } else {
                lowest()
            },
{
    let mut r: Vec<F32> = Vec::new();
    let n: usize = values.len();
    for i in 0..n
        invariant
            n == values@.len(),
            r@.len() == i,
            forall|j: int|
                0 <= j < i ==> #[trigger] r@[j] == if in_top_k(values@, k as nat, j) {
                    values@[j]
                } else {
                    lowest()
                },
    {
        let mut greater: usize = 0;
        for j in 0..n
            invariant
                n == values@.len(),
                i < n,
                greater == greater_count(values@.take(j as int), values@[i as int]),
                greater <= j,
        {
            assert(values@.take(j + 1).drop_last() =~= values@.take(j as int));
            if values[i].lt(values[j]) {
                greater = greater + 1;
            }
        }
        assert(values@.take(n as int) =~= values@);
        r.push(
            if k == 0 || k >= n || greater < k {
                values[i]
            } else {
                F32::from_bits(LOWEST_BITS)
            },
        );
    }
    r
}

proof fn lemma_greater_count_monotone(s: Seq<F32>, low: F32, high: F32)
    requires
        !is_nan(low),
        !is_nan(high),
        rank(low) <= rank(high),
    ensures
        greater_count(s, high) <= greater_count(s, low),
    decreases s.len(),
{
    if s.len() > 0 {
        lemma_greater_count_monotone(s.drop_last(), low, high);
    }
}

proof fn lemma_nothing_greater(s: Seq<F32>, v: F32)
    requires
        forall|i: int| 0 <= i < s.len() ==> !less(v, #[trigger] s[i]),
    ensures
        greater_count(s, v) == 0,
    decreases s.len(),
{
    if s.len() > 0 {
        assert forall|i: int| 0 <= i < s.drop_last().len() implies !less(
            v,
            #[trigger] s.drop_last()[i],
        ) by {
            assert(s.drop_last()[i] == s[i]);
        }
        assert(!less(v, s[s.len() - 1]));
        lemma_nothing_greater(s.drop_last(), v);
    }
}

/// Keeping the `k` greatest scores keeps every score that is at least as great as one that is
/// kept, and the greatest one in any case.
pub proof fn top_k_keeps_the_greatest(s: Seq<F32>, k: nat, i: int, j: int)
    requires
        all_numbers(s),
        0 <= i < s.len(),
        0 <= j < s.len(),
    ensures
        in_top_k(s, k, i) && rank(s[i]) <= rank(s[j]) ==> in_top_k(s, k, j),
        in_top_k(s, k, argmax_of(s)),
{
    if rank(s[i]) <= rank(s[j]) {
        lemma_greater_count_monotone(s, s[i], s[j]);
    }
    argmax_is_greatest(s);
    let best = s[argmax_of(s)];
    assert forall|m: int| 0 <= m < s.len() implies !less(best, #[trigger] s[m]) by {}
    lemma_nothing_greater(s, best);
}

/// Whether a place comes before another in descending order: by a greater value, or by an equal
/// value further in front.
pub open spec fn comes_before(s: Seq<F32>, i: int, j: int) -> bool {
    rank(s[j]) < rank(s[i]) || (rank(s[i]) == rank(s[j]) && i < j)
}

/// Whether an order holds every place once, in descending order.
pub open spec fn is_descending(s: Seq<F32>, order: Seq<usize>) -> bool {
    &&& order.len() == s.len()
    &&& forall|a: int| 0 <= a < order.len() ==> (#[trigger] order[a]) < s.len()
    &&& forall|a: int, b: int|
        0 <= a < b < order.len() ==> comes_before(s, #[trigger] order[a] as int, #[trigger] order[b] as int)
}

/// The places of the values in descending order; equal values stay in their order.
pub fn descending_order(values: &Vec<F32>) -> (r: Vec<usize>)
    requires
        all_numbers(values@),
    ensures
        is_descending(values@, r@),
        r@.no_duplicates(),
{
    let ghost s = values@;
    let mut r: Vec<usize> = Vec::new();
    for i in 0..values.len()
        invariant
            s == values@,
            all_numbers(s),
            r@.len() == i,
            forall|a: int| 0 <= a < i ==> (#[trigger] r@[a]) < i,
            forall|a: int, b: int|
                0 <= a < b < i ==> comes_before(
                    s,
                    #[trigger] r@[a] as int,
                    #[trigger] r@[b] as int,
                ),
    {
        let mut p: usize = r.len();
        while p > 0 && values[r[p - 1]].lt(values[i])
            invariant
                s == values@,
                all_numbers(s),
                i < s.len(),
                r@.len() == i,
                p <= i,
                forall|a: int| 0 <= a < i ==> (#[trigger] r@[a]) < i,
                forall|a: int| p <= a < i ==> rank(s[#[trigger] r@[a] as int]) < rank(s[i as int]),
            decreases p,
        {
            p = p - 1;
        }
        let ghost before = r@;
        assert(p > 0 ==> rank(s[i as int]) <= rank(s[before[p - 1] as int]));
        assert forall|a: int| 0 <= a < p implies comes_before(
            s,
            #[trigger] before[a] as int,
            i as int,
        ) by {
            if a < p - 1 {
                assert(comes_before(s, before[a] as int, before[p - 1] as int));
            }
        }
        r.insert(p, i);
        assert forall|a: int, b: int| 0 <= a < b < i + 1 implies comes_before(
            s,
            #[trigger] r@[a] as int,
            #[trigger] r@[b] as int,
        ) by {
            let x = if a < p {
                before[a]
            } else if a == p {
                i
            } else {
                before[a - 1]
            };
            let y = if b < p {
                before[b]
            } else if b == p {
                i
            } else {
                before[b - 1]
            };
            assert(r@[a] == x && r@[b] == y);
        }
        assert forall|a: int| 0 <= a < i + 1 implies (#[trigger] r@[a]) < i + 1 by {
            if a < p {
                assert(r@[a] == before[a]);
            } else if a > p {
                assert(r@[a] == before[a - 1]);
            }
        }
    }
    r
}

/// The scores with those made lowest before which, in descending order of probability, more
/// than `top_p` has been added up.
pub fn cut_top_p(values: &Vec<F32>, order: &Vec<usize>, sums: &Vec<F32>, top_p: F32) -> (r: Vec<F32>)
    requires
        order@.len() == sums@.len(),
        order@.no_duplicates(),
        forall|a: int| 0 <= a < order@.len() ==> (#[trigger] order@[a]) < values@.len(),
    ensures
        r@.len() == values@.len(),
        forall|a: int|
            0 <= a < order@.len() ==> r@[(#[trigger] order@[a]) as int] == if less(
                top_p,
                sums@[a],
            ) {
                lowest()
            } else {
                values@[order@[a] as int]
            },
        forall|i: int|
            0 <= i < values@.len() && !order@.contains(i as usize) ==> #[trigger] r@[i]
                == values@[i],
{
    let mut r: Vec<F32> = Vec::new();
    for i in 0..values.len()
        invariant
            r@ == values@.take(i as int),
    {
        r.push(values[i]);
        assert(values@.take(i + 1) =~= values@.take(i as int).push(values@[i as int]));
    }
    assert(values@.take(values@.len() as int) =~= values@);
    for a in 0..order.len()
        invariant
            order@.len() == sums@.len(),
            order@.no_duplicates(),
            forall|b: int| 0 <= b < order@.len() ==> (#[trigger] order@[b]) < values@.len(),
            r@.len() == values@.len(),
            forall|b: int|
                0 <= b < a ==> r@[(#[trigger] order@[b]) as int] == if less(top_p, sums@[b]) {
                    lowest()
                } else {
                    values@[order@[b] as int]
                },
            forall|b: int|
                a <= b < order@.len() ==> r@[(#[trigger] order@[b]) as int]
                    == values@[order@[b] as int],
            forall|i: int|
                0 <= i < values@.len() && !order@.contains(i as usize) ==> #[trigger] r@[i]
                    == values@[i],
    {
        let place: usize = order[a];
        if top_p.lt(sums[a]) {
            assert(order@.contains(place)) by {
                assert(order@[a as int] == place);
            }
            r.set(place, F32::from_bits(LOWEST_BITS));
        }
    }
    r
}

/// Whether a number is at most another.
pub open spec fn at_most(a: F32, b: F32) -> bool {
    !is_nan(a) && !is_nan(b) && rank(a) <= rank(b)
}

/// Whether a number is at most another.
pub fn not_above(a: F32, b: F32) -> (r: bool)
    ensures
        r == at_most(a, b),
{
    !a.nan() && !b.nan() && !b.lt(a)
}

/// The first place from which on the sums reach a number, or their count.
pub open spec fn first_reaching(sums: Seq<F32>, chance: F32) -> int
    decreases sums.len(),
{
    if sums.len() == 0 || at_most(chance, sums[0]) {
        0
    } else {
        1 + first_reaching(sums.skip(1), chance)
    }
}

/// The first place from which on the sums reach a number, if they do.
pub fn reach(sums: &Vec<F32>, chance: F32) -> (r: Option<usize>)
    ensures
        match r {
            Some(i) => i < sums@.len() && i == first_reaching(sums@, chance),
            None => first_reaching(sums@, chance) == sums@.len(),
        },
{
    let mut i: usize = 0;
    assert(sums@.skip(0) =~= sums@);
    while i < sums.len()
        invariant
            i <= sums@.len(),
            first_reaching(sums@, chance) == i + first_reaching(sums@.skip(i as int), chance),
        decreases sums@.len() - i,
    {
        assert(sums@.skip(i as int)[0] == sums@[i as int]);
        assert(sums@.skip(i as int).skip(1) =~= sums@.skip(i + 1));
        if not_above(chance, sums[i]) {
            return Some(i);
        }
        i = i + 1;
    }
    None
}

/// The token that a chance draws: the first at which the sums of the probabilities reach it, or
/// the most probable one where they do not.
pub open spec fn drawn(sums: Seq<F32>, probabilities: Seq<F32>, chance: F32) -> int {
    if first_reaching(sums, chance) < sums.len() {
        first_reaching(sums, chance)
    } else {
        argmax_of(probabilities)
    }
}

/// The token that a chance draws.
pub fn draw(sums: &Vec<F32>, probabilities: &Vec<F32>, chance: F32) -> (r: usize)
    ensures
        r == drawn(sums@, probabilities@, chance),
{
    match reach(sums, chance) {
        Some(i) => i,
        None => argmax(probabilities),
    }
}

/// A draw gives a token for which there is a probability.
pub proof fn draw_is_in_range(sums: Seq<F32>, probabilities: Seq<F32>, chance: F32)
    requires
        probabilities.len() > 0,
        sums.len() == probabilities.len(),
    ensures
        0 <= drawn(sums, probabilities, chance) < probabilities.len(),
{
    lemma_argmax_in_range(probabilities);
    lemma_first_reaching(sums, chance);
}

proof fn lemma_first_reaching(sums: Seq<F32>, chance: F32)
    ensures
        0 <= first_reaching(sums, chance) <= sums.len(),
    decreases sums.len(),
{
    if sums.len() > 0 && !at_most(chance, sums[0]) {
        lemma_first_reaching(sums.skip(1), chance);
    }
}

/// How many tokens stay of those in descending order: up to the one at which their sums reach
/// `top_p`, or all of them.
pub fn nucleus_len(sums: &Vec<F32>, top_p: F32) -> (r: usize)
    ensures
        r == if first_reaching(sums@, top_p) < sums@.len() {
            first_reaching(sums@, top_p) + 1
        } else {
            sums@.len() as int
        },
{
    let n: usize = sums.len();
    match reach(sums, top_p) {
        Some(i) => i + 1,
        None => n,
    }
}

/// The token that a chance draws from tokens in descending order: the first at which the sums
/// reach it, or the first one where they do not, or 0 where there is none.
pub fn draw_in_order(order: &Vec<usize>, sums: &Vec<F32>, chance: F32) -> (r: usize)
    requires
        order@.len() == sums@.len(),
    ensures
        r == if first_reaching(sums@, chance) < sums@.len() {
            order@[first_reaching(sums@, chance)]
        } else if order@.len() > 0 {
            order@[0]
        } else {
            0
        },
{
    match reach(sums, chance) {
        Some(i) => order[i],
        None => if order.len() > 0 {
            order[0]
        } else {
            0
        },
    }
}

/// Tokens are penalised once each: every token below the bound that occurs, and no other.
pub proof fn every_token_is_penalised_once(tokens: Seq<usize>, bound: nat, token: usize)
    ensures
        distinct_below(tokens, bound).no_duplicates(),
        distinct_below(tokens, bound).contains(token) <==> tokens.contains(token) && token < bound,
    decreases tokens.len(),
{
    if tokens.len() > 0 {
        let rest = tokens.drop_last();
        let before = distinct_below(rest, bound);
        let last = tokens.last();
        every_token_is_penalised_once(rest, bound, token);
        assert(tokens == rest.push(last));
        assert(tokens.contains(token) <==> rest.contains(token) || token == last) by {
            if rest.contains(token) {
                let i = rest.index_of(token);
                assert(tokens[i] == token);
            }
            if tokens.contains(token) {
                let i = tokens.index_of(token);
                if i < rest.len() {
                    assert(rest[i] == token);
                }
            }
            assert(tokens[rest.len() as int] == last);
        }
        if last < bound && !before.contains(last) {
            let after = before.push(last);
            assert(after.contains(token) <==> before.contains(token) || token == last) by {
                if before.contains(token) {
                    let i = before.index_of(token);
                    assert(after[i] == token);
                }
                if after.contains(token) {
                    let i = after.index_of(token);
                    if i < before.len() {
                        assert(before[i] == token);
                    }
                }
                assert(after[before.len() as int] == last);
            }
        }
    }
}

/// The sum that is reached is the first one: it is not below the chance, and all before it are.
pub proof fn the_first_sum_is_reached(sums: Seq<F32>, chance: F32, i: int)
    requires
        !is_nan(chance),
        0 <= i < sums.len(),
        !is_nan(sums[i]),
    ensures
        0 <= first_reaching(sums, chance) <= sums.len(),
        i < first_reaching(sums, chance) ==> less(sums[i], chance),
        i == first_reaching(sums, chance) ==> !less(sums[i], chance),
    decreases sums.len(),
{
    lemma_first_reaching(sums, chance);
    lemma_first_reaching(sums.skip(1), chance);
    if !at_most(chance, sums[0]) && i > 0 {
        the_first_sum_is_reached(sums.skip(1), chance, i - 1);
        assert(sums.skip(1)[i - 1] == sums[i]);
    }
}

/// Where sums grow, a greater chance draws no earlier token.
pub proof fn greater_chances_draw_later(sums: Seq<F32>, low: F32, high: F32)
    requires
        !less(high, low),
        !is_nan(low),
        !is_nan(high),
    ensures
        first_reaching(sums, low) <= first_reaching(sums, high),
    decreases sums.len(),
{
    if sums.len() > 0 {
        lemma_first_reaching(sums.skip(1), high);
        if !at_most(low, sums[0]) {
            greater_chances_draw_later(sums.skip(1), low, high);
        }
    }
}

proof fn lemma_greater_before(s: Seq<F32>, v: F32, i: int)
    requires
        0 <= i <= s.len(),
        forall|j: int| 0 <= j < i ==> less(v, #[trigger] s[j]),
        forall|j: int| i <= j < s.len() ==> !less(v, #[trigger] s[j]),
    ensures
        greater_count(s, v) == i,
    decreases s.len(),
{
    if s.len() > 0 {
        let rest = s.drop_last();
        if i == s.len() {
            lemma_greater_before(rest, v, i - 1);
        } else {
            lemma_greater_before(rest, v, i);
        }
    }
}

/// Of values in falling order the first `k` stay, and all where `k` is zero.
pub proof fn top_k_keeps_k(s: Seq<F32>, k: nat, i: int)
    requires
        0 <= i < s.len(),
        forall|a: int, b: int| 0 <= a < b < s.len() ==> less(#[trigger] s[b], #[trigger] s[a]),
    ensures
        in_top_k(s, k, i) <==> k == 0 || i < k,
{
    assert forall|j: int| i <= j < s.len() implies !less(s[i], #[trigger] s[j]) by {
        if i < j {
            assert(less(s[j], s[i]));
        }
    }
    lemma_greater_before(s, s[i], i);
}

} // verus!
