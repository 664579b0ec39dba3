//! Decoding token by token: which scores a step samples from, when decoding ends, and where a
//! new token stands.

use vstd::prelude::*;

verus! {

/// How many steps cannot end decoding: their scores leave the end token out.
pub const MASKED_STEPS: usize = 11;

/// How tokens are decoded.
#[derive(Debug, Clone, Copy, PartialEq, Eq, Structural)]
pub enum DecodeRule {
    /// Without a prompt of audio tokens: every step may end decoding, by the sampled token only.
    Features,
    /// Behind a prompt, with the whole sequence at each step.
    Prompted,
    /// Behind a prompt, with a cache of what was seen: the first token comes with the prompt.
    Cached,
}

/// What was decoded, and whether decoding ended.
pub struct DecodeState {
    pub tokens: Seq<usize>,
    pub ended: bool,
}

/// How many scores a step samples from, of those for all tokens; the end token is the last one.
pub open spec fn sampled_scores(rule: DecodeRule, vocab: int, step: int) -> int {
    if rule is Features || step >= MASKED_STEPS {
        vocab
    } else {
        vocab - 1
    }
}

/// Whether a step ends decoding: where the end token was sampled or, outside the masked steps,
/// scored highest.
pub open spec fn ends(rule: DecodeRule, vocab: int, step: int, sampled: int, highest: int) -> bool {
    sampled >= vocab - 1 || (!(rule is Features) && step >= MASKED_STEPS && highest == vocab - 1)
}

/// Whether decoding goes on.
pub open spec fn goes_on(rule: DecodeRule, max_tokens: int, state: DecodeState) -> bool {
    !state.ended && (state.tokens.len() < max_tokens || (rule is Cached && state.tokens.len() == 0))
}

/// What a step makes of a state.
pub open spec fn step_from(
    rule: DecodeRule,
    vocab: int,
    state: DecodeState,
    sampled: usize,
    highest: usize,
) -> DecodeState {
    if ends(rule, vocab, state.tokens.len() as int, sampled as int, highest as int) {
        DecodeState { tokens: state.tokens, ended: true }
    } else {
        DecodeState { tokens: state.tokens.push(sampled), ended: false }
    }
}

/// What decoding comes to over what the steps would sample, each with the token that it scores
/// highest.
pub open spec fn decoded(
    rule: DecodeRule,
    vocab: int,
    max_tokens: int,
    picks: Seq<(usize, usize)>,
) -> DecodeState
    decreases picks.len(),
{
    if picks.len() == 0 {
        DecodeState { tokens: Seq::empty(), ended: false }
    } else {
        let before = decoded(rule, vocab, max_tokens, picks.drop_last());
        if goes_on(rule, max_tokens, before) {
            step_from(rule, vocab, before, picks.last().0, picks.last().1)
        } else {
            before
        }
    }
}

/// A decoding in progress.
pub struct TokenDecoder {
    pub rule: DecodeRule,
    /// The number of audio tokens, with the end token.
    pub vocab: usize,
    /// The length of the prompt.
    pub prompt_len: usize,
    pub max_tokens: usize,
    pub tokens: Vec<usize>,
    pub ended: bool,
}

impl TokenDecoder {
    /// Whether no end token was taken, and no more tokens than were asked for.
    pub open spec fn valid(&self) -> bool {
        &&& self.vocab >= 1
        &&& forall|i: int| 0 <= i < self.tokens@.len() ==> (#[trigger] self.tokens@[i]) < self.vocab - 1
        &&& self.tokens@.len() <= self.max_tokens || (self.rule is Cached && self.tokens@.len() <= 1)
    }

    /// What was decoded so far.
    pub open spec fn state(&self) -> DecodeState {
        DecodeState { tokens: self.tokens@, ended: self.ended }
    }

    /// A decoding that has not begun.
    pub fn new(rule: DecodeRule, vocab: usize, prompt_len: usize, max_tokens: usize) -> (r: Self)
        requires
            vocab >= 1,
        ensures
            r.valid(),
            r.rule == rule,
            r.vocab == vocab,
            r.prompt_len == prompt_len,
            r.max_tokens == max_tokens,
            r.state() == decoded(rule, vocab as int, max_tokens as int, Seq::empty()),
    {
        TokenDecoder { rule, vocab, prompt_len, max_tokens, tokens: Vec::new(), ended: false }
    }

    /// Whether another step is to be made.
    pub fn wants_more(&self) -> (r: bool)
        ensures
            r == goes_on(self.rule, self.max_tokens as int, self.state()),
    {
        let cached = match self.rule {
            DecodeRule::Cached => true,
            _ => false,
        };
        !self.ended && (self.tokens.len() < self.max_tokens || (cached && self.tokens.len() == 0))
    }

    /// How many of the scores the next step samples from.
    pub fn score_count(&self) -> (r: usize)
        requires
            self.valid(),
        ensures
            r == sampled_scores(self.rule, self.vocab as int, self.tokens@.len() as int),
    {
        let features = match self.rule {
            DecodeRule::Features => true,
            _ => false,
        };
        if features || self.tokens.len() >= MASKED_STEPS {
            self.vocab
        } else {
            self.vocab - 1
        }
    }

    /// Takes what a step sampled, and the token that it scored highest.
    pub fn take(&mut self, sampled: usize, highest: usize)
        requires
            old(self).valid(),
            goes_on(old(self).rule, old(self).max_tokens as int, old(self).state()),
        ensures
            final(self).valid(),
            final(self).rule == old(self).rule,
            final(self).vocab == old(self).vocab,
            final(self).prompt_len == old(self).prompt_len,
            final(self).max_tokens == old(self).max_tokens,
            final(self).state() == step_from(
                old(self).rule,
                old(self).vocab as int,
                old(self).state(),
                sampled,
                highest,
            ),
    {
        let features = match self.rule {
            DecodeRule::Features => true,
            _ => false,
        };
        if sampled >= self.vocab - 1 || (!features && self.tokens.len() >= MASKED_STEPS && highest
            == self.vocab - 1) {
            self.ended = true;
        } else {
            self.tokens.push(sampled);
        }
    }

    /// Where the last token stands among the audio tokens, those of the prompt included.
    pub fn position(&self) -> (r: usize)
        requires
            self.tokens@.len() > 0,
            self.prompt_len + self.tokens@.len() <= usize::MAX,
        ensures
            r == self.prompt_len + self.tokens@.len() - 1,
    {
        self.prompt_len + (self.tokens.len() - 1)
    }

    /// How much of a cache is filled once the last token but one was seen, behind a prefix.
    pub fn cache_len(&self, prefix: usize) -> (r: usize)
        requires
            self.tokens@.len() > 0,
            prefix + self.tokens@.len() <= usize::MAX,
        ensures
            r == prefix + self.tokens@.len() - 1,
    {
        prefix + (self.tokens.len() - 1)
    }
}

/// Decoding gives no end token, and no more tokens than were asked for; only a cached decoding
/// gives one token where none was asked for.
pub proof fn decoding_is_bounded(
    rule: DecodeRule,
    vocab: int,
    max_tokens: int,
    picks: Seq<(usize, usize)>,
)
    requires
        vocab >= 1,
        max_tokens >= 0,
    ensures
        ({
            let tokens = decoded(rule, vocab, max_tokens, picks).tokens;
            &&& tokens.len() <= max_tokens || (rule is Cached && tokens.len() <= 1)
            &&& tokens.len() <= picks.len()
            &&& forall|i: int|
                0 <= i < tokens.len() ==> (#[trigger] tokens[i]) < vocab - 1 && tokens[i]
                    == picks[i].0
        }),
    decreases picks.len(),
{
    if picks.len() > 0 {
        let rest = picks.drop_last();
        decoding_is_bounded(rule, vocab, max_tokens, rest);
        let before = decoded(rule, vocab, max_tokens, rest);
        lemma_tokens_or_ended(rule, vocab, max_tokens, rest);
        let tokens = decoded(rule, vocab, max_tokens, picks).tokens;
        assert forall|i: int| 0 <= i < tokens.len() implies (#[trigger] tokens[i]) < vocab - 1
            && tokens[i] == picks[i].0 by {
            if i < before.tokens.len() {
                assert(tokens[i] == before.tokens[i]);
                assert(rest[i] == picks[i]);
            }
        }
    }
}

/// Whether a step that samples one token and scores another highest tells the end: the last token
/// of the vocabulary is sampled or, with a prompt and behind eleven tokens, scores highest.
pub open spec fn marks_the_end(
    rule: DecodeRule,
    vocab: int,
    step: int,
    pick: (usize, usize),
) -> bool {
    ||| pick.0 > vocab - 2
    ||| pick.1 == vocab - 1 && step > 10 && rule != DecodeRule::Features
}

/// Decoding takes the sampled tokens one by one. It ends where the end token, the last of the
/// vocabulary, is sampled or, with a prompt and behind eleven tokens, scores highest, and nowhere
/// else; where it has not ended, each step has given a token up to as many as were asked for.
pub proof fn decoding_takes_tokens_until_the_end(
    rule: DecodeRule,
    vocab: int,
    max_tokens: int,
    picks: Seq<(usize, usize)>,
)
    requires
        max_tokens >= 0,
    ensures
        decoded(rule, vocab, max_tokens, picks).tokens.len() <= picks.len(),
        forall|i: int|
            0 <= i < decoded(rule, vocab, max_tokens, picks).tokens.len() ==> {
                &&& #[trigger] decoded(rule, vocab, max_tokens, picks).tokens[i] == picks[i].0
                &&& !marks_the_end(rule, vocab, i, picks[i])
            },
        ({
            let state = decoded(rule, vocab, max_tokens, picks);
            let n = state.tokens.len() as int;
            if state.ended {
                &&& n < picks.len()
                &&& marks_the_end(rule, vocab, n, picks[n])
                &&& n < max_tokens || (rule is Cached && n == 0)
            } else if n < picks.len() {
                n == max_tokens || (rule is Cached && max_tokens == 0 && n == 1)
            } else {
                n <= max_tokens || (rule is Cached && max_tokens == 0 && n == 1)
            }
        }),
    decreases picks.len(),
{
    if picks.len() > 0 {
        let rest = picks.drop_last();
        decoding_takes_tokens_until_the_end(rule, vocab, max_tokens, rest);
        let before = decoded(rule, vocab, max_tokens, rest);
        let state = decoded(rule, vocab, max_tokens, picks);
        let n = before.tokens.len() as int;
        if before.ended {
            assert(rest[n] == picks[n]);
        } else if goes_on(rule, max_tokens, before) {
            assert(n == rest.len());
            assert(picks[n] == picks.last());
        }
        assert forall|i: int| 0 <= i < state.tokens.len() implies {
            &&& #[trigger] state.tokens[i] == picks[i].0
            &&& !marks_the_end(rule, vocab, i, picks[i])
        } by {
            if i < n {
                assert(state.tokens[i] == before.tokens[i]);
                assert(rest[i] == picks[i]);
            } else {
                assert(picks[i] == picks.last());
            }
        }
    }
}

/// Where the end token is neither sampled nor scored highest, decoding goes on: what was decoded
/// are the tokens that the steps sampled, all of them and in order.
pub proof fn decoding_goes_on_without_the_end(
    rule: DecodeRule,
    vocab: int,
    max_tokens: int,
    picks: Seq<(usize, usize)>,
)
    requires
        picks.len() <= max_tokens,
        forall|i: int|
            0 <= i < picks.len() ==> (#[trigger] picks[i]).0 < vocab - 1 && picks[i].1 < vocab - 1,
    ensures
        !decoded(rule, vocab, max_tokens, picks).ended,
        decoded(rule, vocab, max_tokens, picks).tokens == picks.map_values(
            |p: (usize, usize)| p.0,
        ),
{
    decoding_takes_tokens_until_the_end(rule, vocab, max_tokens, picks);
    let state = decoded(rule, vocab, max_tokens, picks);
    if state.ended {
        let n = state.tokens.len() as int;
        assert(picks[n].0 < vocab - 1);
    }
    assert(state.tokens.len() == picks.len());
    assert(state.tokens =~= picks.map_values(|p: (usize, usize)| p.0)) by {
        assert forall|i: int| 0 <= i < picks.len() implies (#[trigger] state.tokens[i])
            == picks[i].0 by {}
    }
}

/// The end token may be sampled at every step without a prompt, and at every step behind eleven
/// tokens with one; no step before samples it, and no other token is ever left out.
pub proof fn only_early_steps_leave_the_end_out(rule: DecodeRule, vocab: int, step: int, token: int)
    requires
        0 <= step,
        0 <= token < vocab,
    ensures
        token < sampled_scores(rule, vocab, step) <==> token < vocab - 1 || rule is Features || step
            > 10,
{
}

/// A decoding that goes on has taken a token at each step.
proof fn lemma_tokens_or_ended(
    rule: DecodeRule,
    vocab: int,
    max_tokens: int,
    picks: Seq<(usize, usize)>,
)
    ensures
        ({
            let state = decoded(rule, vocab, max_tokens, picks);
            goes_on(rule, max_tokens, state) ==> state.tokens.len() == picks.len()
        }),
    decreases picks.len(),
{
    if picks.len() > 0 {
        lemma_tokens_or_ended(rule, vocab, max_tokens, picks.drop_last());
    }
}

/// Behind a prompt, the masked steps do not end decoding: where each samples one of its scores,
/// each gives a token.
pub proof fn masked_steps_give_tokens(
    rule: DecodeRule,
    vocab: int,
    max_tokens: int,
    picks: Seq<(usize, usize)>,
)
    requires
        !(rule is Features),
        picks.len() <= MASKED_STEPS,
        picks.len() <= max_tokens,
        forall|i: int|
            0 <= i < picks.len() ==> (#[trigger] picks[i]).0 < sampled_scores(rule, vocab, i),
    ensures
        decoded(rule, vocab, max_tokens, picks).tokens.len() == picks.len(),
        !decoded(rule, vocab, max_tokens, picks).ended,
    decreases picks.len(),
{
    if picks.len() > 0 {
        let rest = picks.drop_last();
        assert forall|i: int| 0 <= i < rest.len() implies (#[trigger] rest[i]).0 < sampled_scores(
            rule,
            vocab,
            i,
        ) by {
            assert(rest[i] == picks[i]);
        }
        masked_steps_give_tokens(rule, vocab, max_tokens, rest);
        assert(picks[picks.len() - 1].0 < sampled_scores(rule, vocab, picks.len() - 1));
    }
}

/// Where there is room for the prefix and all tokens, the cache has room for each token that is
/// decoded behind the first.
pub proof fn cache_has_room(
    rule: DecodeRule,
    vocab: int,
    max_tokens: int,
    picks: Seq<(usize, usize)>,
    prefix: int,
    room: int,
)
    requires
        vocab >= 1,
        max_tokens >= 0,
        prefix + max_tokens <= room,
        goes_on(rule, max_tokens, decoded(rule, vocab, max_tokens, picks)),
        decoded(rule, vocab, max_tokens, picks).tokens.len() > 0,
    ensures
        prefix + decoded(rule, vocab, max_tokens, picks).tokens.len() - 1 < room,
{
    decoding_is_bounded(rule, vocab, max_tokens, picks);
}

/// What runs the steps of a cached decoding.
#[derive(Debug, Clone, Copy, PartialEq, Eq, Structural)]
pub enum DecodePath {
    /// Step by step, in a cache of fixed size.
    Eager,
    /// By a graph of the device's operations that is captured once.
    Graph,
}

/// A graph is captured only on CUDA, and only where no text features are given.
pub fn decode_path(on_cuda: bool, has_features: bool) -> (r: DecodePath)
    ensures
        r is Graph <==> on_cuda && !has_features,
{
    if on_cuda && !has_features {
        DecodePath::Graph
    } else {
        DecodePath::Eager
    }
}

/// The steps that are made before a graph is captured.
pub const WARMUP_STEPS: usize = 3;

/// What a step of a decoding by graph does.
#[derive(Debug, Clone, Copy, PartialEq, Eq, Structural)]
pub enum GraphStep {
    /// Sees the prompt.
    Prefill,
    /// Runs step by step, so that memory is laid out.
    Warmup,
    /// Captures the graph and runs it.
    Capture,
    /// Runs the graph again.
    Replay,
}

/// What a step of a decoding by graph does, by the number of tokens before it.
pub fn graph_step(tokens: usize) -> (r: GraphStep)
    ensures
        r == if tokens == 0 {
            GraphStep::Prefill
        } else if tokens <= WARMUP_STEPS {
            GraphStep::Warmup
        } else if tokens == WARMUP_STEPS + 1 {
            GraphStep::Capture
        } else {
            GraphStep::Replay
        },
{
    if tokens == 0 {
        GraphStep::Prefill
    } else if tokens <= WARMUP_STEPS {
        GraphStep::Warmup
    } else if tokens == WARMUP_STEPS + 1 {
        GraphStep::Capture
    } else {
        GraphStep::Replay
    }
}

/// Where the embedding of a token is found.
#[derive(Debug, Clone, Copy, PartialEq, Eq, Structural)]
pub enum EmbeddingPlace {
    Text(usize),
    Audio(usize),
}

/// Where the embedding of a token is found: text tokens come first, audio tokens behind them.
pub fn embedding_place(token: usize, text_vocab: usize, audio_vocab: usize) -> (r: Result<
    EmbeddingPlace,
    usize,
>)
    ensures
        match r {
            Ok(EmbeddingPlace::Text(i)) => token < text_vocab && i == token,
            Ok(EmbeddingPlace::Audio(i)) => token >= text_vocab && i == token - text_vocab && i
                < audio_vocab,
            Err(i) => token >= text_vocab && i == token - text_vocab && i >= audio_vocab,
        },
{
    if token < text_vocab {
        Ok(EmbeddingPlace::Text(token))
    } else {
        let i: usize = token - text_vocab;
        if i < audio_vocab {
            Ok(EmbeddingPlace::Audio(i))
        } else {
            Err(i)
        }
    }
}

} // verus!
