//! The synthesis pipeline: which decoder runs, what it needs, and how its pieces are put
//! together.

use crate::float_bits::F32;
use crate::strings::{decimal, decimal_string, same, views};
use crate::Error;
use vstd::prelude::*;

verus! {

/// How semantic tokens are decoded.
#[derive(Debug, Clone, Copy, PartialEq, Eq, Structural)]
pub enum DecodeBackend {
    Plain,
    KvCache,
    CudaGraph,
}

/// The generator that decoding calls.
#[derive(Debug, Clone, Copy, PartialEq, Eq, Structural)]
pub enum DecodeCall {
    /// Without prompt tokens.
    WithFeatures,
    /// With prompt tokens, all positions at each step.
    Plain,
    /// With prompt tokens and a growing cache of keys and values.
    KvCache,
    /// With prompt tokens and a cache of the given length.
    CudaGraph(usize),
}

/// The name of a decoder.
pub open spec fn backend_name(backend: DecodeBackend) -> Seq<char> {
    match backend {
        DecodeBackend::Plain => "plain"@,
        DecodeBackend::KvCache => "kv"@,
        DecodeBackend::CudaGraph => "cuda-graph"@,
    }
}

/// What stands behind the number of generated tokens.
pub open spec fn backend_suffix(backend: DecodeBackend) -> Seq<char> {
    match backend {
        DecodeBackend::Plain => ""@,
        DecodeBackend::KvCache => " (kv_cache)"@,
        DecodeBackend::CudaGraph => " (cuda-graph)"@,
    }
}

impl DecodeBackend {
    /// The name of the decoder.
    pub fn profile_mode(self) -> (r: &'static str)
        ensures
            r@ == backend_name(self),
    {
        match self {
            DecodeBackend::Plain => "plain",
            DecodeBackend::KvCache => "kv",
            DecodeBackend::CudaGraph => "cuda-graph",
        }
    }

    /// What stands behind the number of generated tokens.
    pub fn generated_suffix(self) -> (r: &'static str)
        ensures
            r@ == backend_suffix(self),
    {
        match self {
            DecodeBackend::Plain => "",
            DecodeBackend::KvCache => " (kv_cache)",
            DecodeBackend::CudaGraph => " (cuda-graph)",
        }
    }

    /// What is reported of a decoding: the number of tokens, and a warning where it reached
    /// the limit.
    pub fn log_generated(self, token_count: usize, max_tokens: usize) -> (r: (
        String,
        Option<String>,
    ))
        ensures
            r.0@ == "Generated "@ + decimal(token_count as nat) + " semantic tokens"@
                + backend_suffix(self),
            match r.1 {
                Some(w) => token_count >= max_tokens && w@
                    == "Generated token count reached max_tokens="@ + decimal(max_tokens as nat)
                    + " in "@ + backend_name(self) + " mode; output may be truncated"@,
                None => token_count < max_tokens,
            },
    {
        let mut line = "Generated ".to_owned();
        line.push_str(decimal_string(token_count as u64).as_str());
        line.push_str(" semantic tokens");
        line.push_str(self.generated_suffix());
        if token_count >= max_tokens {
            let mut warning = "Generated token count reached max_tokens=".to_owned();
            warning.push_str(decimal_string(max_tokens as u64).as_str());
            warning.push_str(" in ");
            warning.push_str(self.profile_mode());
            warning.push_str(" mode; output may be truncated");
            (line, Some(warning))
        } else {
            (line, None)
        }
    }

    /// The generator to call. The cache of the graph decoder holds the phonemes, the prompt,
    /// all tokens that may come, and 32 more.
    pub fn decode_call(self, phonemes: usize, prompt_tokens: usize, max_tokens: usize) -> (r:
        DecodeCall)
        requires
            self is CudaGraph && prompt_tokens > 0 ==> phonemes + prompt_tokens + max_tokens + 32
                <= usize::MAX,
        ensures
            r == if prompt_tokens == 0 {
                DecodeCall::WithFeatures
            } else {
                match self {
                    DecodeBackend::Plain => DecodeCall::Plain,
                    DecodeBackend::KvCache => DecodeCall::KvCache,
                    DecodeBackend::CudaGraph => DecodeCall::CudaGraph(
                        (phonemes + prompt_tokens + max_tokens + 32) as usize,
                    ),
                }
            },
    {
        if prompt_tokens == 0 {
            return DecodeCall::WithFeatures;
        }
        match self {
            DecodeBackend::Plain => DecodeCall::Plain,
            DecodeBackend::KvCache => DecodeCall::KvCache,
            DecodeBackend::CudaGraph => DecodeCall::CudaGraph(
                phonemes + prompt_tokens + max_tokens + 32,
            ),
        }
    }
}

/// The decoder to use on a device: graphs need CUDA and a model, if one is loaded, in single
/// precision, and may be switched off.
pub open spec fn automatic(cuda: bool, single_precision: Option<bool>, disabled: bool) -> DecodeBackend {
    if cuda && single_precision != Some(false) && !disabled {
        DecodeBackend::CudaGraph
    } else {
        DecodeBackend::KvCache
    }
}

/// The name of the decoder to use on a device.
pub fn automatic_inference_mode(cuda: bool, single_precision: Option<bool>, disabled: bool) -> (r:
    &'static str)
    ensures
        r@ == backend_name(automatic(cuda, single_precision, disabled)),
{
    let single = match single_precision {
        Some(s) => s,
        None => true,
    };
    if cuda && single && !disabled {
        "cuda-graph"
    } else {
        "kv"
    }
}

/// The decoder that a mode stands for.
pub open spec fn backend_of(mode: Seq<char>, auto: DecodeBackend) -> Option<DecodeBackend> {
    if mode == "auto"@ {
        Some(auto)
    } else if mode == "plain"@ {
        Some(DecodeBackend::Plain)
    } else if mode == "kv"@ {
        Some(DecodeBackend::KvCache)
    } else if mode == "cuda-graph"@ {
        Some(DecodeBackend::CudaGraph)
    } else {
        None
    }
}

/// The decoder that a mode stands for, `auto` being what the device calls for.
pub fn inference_backend(mode: &str, auto: DecodeBackend) -> (r: Result<DecodeBackend, Error>)
    ensures
        match r {
            Ok(b) => backend_of(mode@, auto) == Some(b),
            Err(e) => backend_of(mode@, auto) is None && (e matches Error::ConfigError(m) && m@
                == "Unsupported inference mode: "@ + mode@),
        },
{
    if same(mode, "auto") {
        Ok(auto)
    } else if same(mode, "plain") {
        Ok(DecodeBackend::Plain)
    } else if same(mode, "kv") {
        Ok(DecodeBackend::KvCache)
    } else if same(mode, "cuda-graph") {
        Ok(DecodeBackend::CudaGraph)
    } else {
        let mut message = "Unsupported inference mode: ".to_owned();
        message.push_str(mode);
        Err(Error::ConfigError(message))
    }
}

/// The model that a decoder misses first: the plain decoder asks for the GPT model first, the
/// others for the SoVITS model.
pub open spec fn missing_model(backend: DecodeBackend, gpt: bool, sovits: bool) -> Option<
    Seq<char>,
> {
    if gpt && sovits {
        None
    } else if backend == DecodeBackend::Plain {
        if !gpt {
            Some("GPT model not loaded"@)
        } else {
            Some("SoVITS model not loaded"@)
        }
    } else {
        if !sovits {
            Some("SoVITS model not loaded"@)
        } else {
            Some("GPT model not loaded"@)
        }
    }
}

/// Whether the models that a decoder needs are loaded.
pub fn require_models(backend: DecodeBackend, gpt: bool, sovits: bool) -> (r: Result<(), Error>)
    ensures
        match r {
            Ok(_) => missing_model(backend, gpt, sovits) is None,
            Err(e) => e matches Error::ModelLoadError(m) && missing_model(backend, gpt, sovits)
                == Some(m@),
        },
{
    if gpt && sovits {
        return Ok(());
    }
    let gpt_first = backend == DecodeBackend::Plain;
    let message = if (gpt_first && !gpt) || (!gpt_first && sovits) {
        "GPT model not loaded"
    } else {
        "SoVITS model not loaded"
    };
    Err(Error::ModelLoadError(message.to_owned()))
}

/// Whether a pipeline can synthesize.
pub fn is_ready(gpt: bool, sovits: bool) -> (r: bool)
    ensures
        r == forall|b: DecodeBackend| #[trigger] missing_model(b, gpt, sovits) is None,
{
    assert(missing_model(DecodeBackend::Plain, gpt, sovits) is None <==> gpt && sovits);
    gpt && sovits
}

/// The phonemes given to the decoder: those of the reference, then those of the target.
pub fn join_phonemes(reference: &Vec<usize>, target: &Vec<usize>) -> (r: Vec<usize>)
    ensures
        r@ == reference@ + target@,
{
    let mut r: Vec<usize> = Vec::new();
    for i in 0..reference.len()
        invariant
            r@ == reference@.take(i as int),
    {
        r.push(reference[i]);
    }
    for i in 0..target.len()
        invariant
            r@ == reference@ + target@.take(i as int),
    {
        r.push(target[i]);
        assert(r@ =~= reference@ + target@.take(i + 1));
    }
    assert(target@.take(target@.len() as int) =~= target@);
    r
}

/// Which context features the decoder is given.
#[derive(Debug, Clone, Copy, PartialEq, Eq, Structural)]
pub enum ContextFeatures {
    ReferenceAndTarget,
    Target,
    Absent,
}

/// Which context features the decoder is given, by which there are: none without the target's.
pub fn join_features(reference: bool, target: bool) -> (r: ContextFeatures)
    ensures
        r == if !target {
            ContextFeatures::Absent
        } else if reference {
            ContextFeatures::ReferenceAndTarget
        } else {
            ContextFeatures::Target
        },
{
    if !target {
        ContextFeatures::Absent
    } else if reference {
        ContextFeatures::ReferenceAndTarget
    } else {
        ContextFeatures::Target
    }
}

/// Whether the reference text has context features: there are both models and phonemes.
pub fn reference_has_features(bert: bool, gpt: bool, phonemes: usize) -> (r: bool)
    ensures
        r == (bert && gpt && phonemes > 0),
{
    bert && gpt && phonemes > 0
}

/// The chunks one after the other, `gap` silent samples between neighbours.
pub open spec fn assembled(chunks: Seq<Seq<F32>>, gap: nat) -> Seq<F32>
    decreases chunks.len(),
{
    if chunks.len() == 0 {
        Seq::empty()
    } else if chunks.len() == 1 {
        chunks[0]
    } else {
        assembled(chunks.drop_last(), gap) + Seq::new(gap, |i: int| F32 { bits: 0 })
            + chunks.last()
    }
}

/// How many samples chunks have together.
pub open spec fn sample_count(chunks: Seq<Seq<F32>>) -> nat
    decreases chunks.len(),
{
    if chunks.len() == 0 {
        0
    } else {
        sample_count(chunks.drop_last()) + chunks.last().len()
    }
}

/// Where a chunk begins in the audio that chunks are put together into: behind the samples of
/// those before it and a gap for each of them.
pub open spec fn chunk_start(chunks: Seq<Seq<F32>>, gap: nat, i: int) -> int {
    sample_count(chunks.take(i)) + i * gap
}

proof fn lemma_chunk_start(chunks: Seq<Seq<F32>>, gap: nat, i: int)
    requires
        0 <= i < chunks.len(),
    ensures
        chunk_start(chunks, gap, 0) == 0,
        chunk_start(chunks, gap, i + 1) == chunk_start(chunks, gap, i) + chunks[i].len() + gap,
        forall|j: int|
            0 <= j <= i ==> #[trigger] chunk_start(chunks.take(i), gap, j) == chunk_start(
                chunks,
                gap,
                j,
            ),
{
    assert(chunks.take(0) =~= Seq::empty());
    assert(0 * gap == 0) by (nonlinear_arith);
    assert(chunks.take(i + 1).drop_last() =~= chunks.take(i));
    assert((i + 1) * gap == i * gap + gap) by (nonlinear_arith);
    assert forall|j: int| 0 <= j <= i implies #[trigger] chunk_start(chunks.take(i), gap, j)
        == chunk_start(chunks, gap, j) by {
        assert(chunks.take(i).take(j) =~= chunks.take(j));
    }
}

/// The audio that chunks are put together into has the samples of all of them and a gap between
/// neighbours, and no more.
pub proof fn audio_is_as_long_as_its_chunks(chunks: Seq<Seq<F32>>, gap: nat)
    requires
        chunks.len() > 0,
    ensures
        assembled(chunks, gap).len() == sample_count(chunks) + (chunks.len() - 1) * gap,
        assembled(chunks, gap).len() == chunk_start(chunks, gap, chunks.len() - 1)
            + chunks.last().len(),
    decreases chunks.len(),
{
    let last = chunks.len() - 1;
    lemma_chunk_start(chunks, gap, last);
    assert(chunks.drop_last() =~= chunks.take(last));
    if chunks.len() == 1 {
        assert(chunks.drop_last() =~= Seq::empty());
        assert(0 * gap == 0) by (nonlinear_arith);
    } else {
        audio_is_as_long_as_its_chunks(chunks.drop_last(), gap);
        assert((last - 1) * gap + gap == last * gap) by (nonlinear_arith);
    }
}

/// A sample of a chunk where `k` is in it, and of the gap before it where `k` is negative.
proof fn lemma_sample_at(chunks: Seq<Seq<F32>>, gap: nat, i: int, k: int)
    requires
        0 <= i < chunks.len(),
        k < chunks[i].len(),
        0 <= k || (0 < i && -gap <= k),
    ensures
        0 <= chunk_start(chunks, gap, i) + k < assembled(chunks, gap).len(),
        assembled(chunks, gap)[chunk_start(chunks, gap, i) + k] == if k < 0 {
            F32 { bits: 0 }
        } else {
            chunks[i][k]
        },
    decreases chunks.len(),
{
    let last = chunks.len() - 1;
    let at = chunk_start(chunks, gap, i) + k;
    lemma_chunk_start(chunks, gap, last);
    audio_is_as_long_as_its_chunks(chunks, gap);
    if chunks.len() > 1 {
        let rest = chunks.drop_last();
        assert(rest =~= chunks.take(last));
        audio_is_as_long_as_its_chunks(rest, gap);
        assert((last - 1) * gap + gap == last * gap) by (nonlinear_arith);
        let before = assembled(rest, gap);
        assert(chunk_start(chunks, gap, last) == before.len() + gap);
        if i < last {
            lemma_sample_at(rest, gap, i, k);
            assert(chunk_start(rest, gap, i) == chunk_start(chunks, gap, i));
            assert(assembled(chunks, gap)[at] == before[at]);
        }
    }
}

/// Every chunk is in the audio that chunks are put together into, sample by sample, behind those
/// before it.
pub proof fn every_chunk_is_heard(chunks: Seq<Seq<F32>>, gap: nat, i: int, k: int)
    requires
        0 <= i < chunks.len(),
        0 <= k < chunks[i].len(),
    ensures
        sample_count(chunks.take(i)) + i * gap + k < assembled(chunks, gap).len(),
        assembled(chunks, gap)[sample_count(chunks.take(i)) + i * gap + k] == chunks[i][k],
{
    lemma_sample_at(chunks, gap, i, k);
}

/// There is silence before each chunk but the first.
pub proof fn gaps_are_silent(chunks: Seq<Seq<F32>>, gap: nat, i: int, k: int)
    requires
        0 < i < chunks.len(),
        0 <= k < gap,
    ensures
        0 <= sample_count(chunks.take(i)) + i * gap - gap + k < assembled(chunks, gap).len(),
        assembled(chunks, gap)[sample_count(chunks.take(i)) + i * gap - gap + k].bits == 0,
{
    lemma_sample_at(chunks, gap, i, k - gap);
}

/// Splitting a list of chunks in two and putting each half together gives the same audio, with
/// one gap between the halves.
pub proof fn chunks_can_be_put_together_in_halves(
    first: Seq<Seq<F32>>,
    second: Seq<Seq<F32>>,
    gap: nat,
)
    requires
        first.len() > 0,
        second.len() > 0,
    ensures
        assembled(first + second, gap) == assembled(first, gap) + Seq::new(
            gap,
            |i: int| F32 { bits: 0 },
        ) + assembled(second, gap),
    decreases second.len(),
{
    let silence = Seq::new(gap, |i: int| F32 { bits: 0 });
    assert((first + second).drop_last() =~= first + second.drop_last());
    assert((first + second).last() == second.last());
    if second.len() == 1 {
        assert(first + second.drop_last() =~= first);
    } else {
        chunks_can_be_put_together_in_halves(first, second.drop_last(), gap);
        assert(assembled(first, gap) + silence + assembled(second.drop_last(), gap) + silence
            + second.last() =~= assembled(first, gap) + silence + (assembled(
            second.drop_last(),
            gap,
        ) + silence + second.last()));
    }
}

/// The chunks by their samples.
pub open spec fn chunk_samples(chunks: Seq<Vec<F32>>) -> Seq<Seq<F32>> {
    chunks.map_values(|c: Vec<F32>| c@)
}

/// Puts the chunks together, `gap` silent samples between neighbours; without chunks there is
/// nothing to put together.
pub fn assemble_chunks(chunks: &Vec<Vec<F32>>, gap: usize) -> (r: Result<Vec<F32>, Error>)
    ensures
        match r {
            Ok(s) => chunks@.len() > 0 && s@ == assembled(chunk_samples(chunks@), gap as nat),
            Err(e) => chunks@.len() == 0 && (e matches Error::InferenceError(m) && m@
                == "No sentence chunks generated"@),
        },
{
    if chunks.len() == 0 {
        return Err(Error::InferenceError("No sentence chunks generated".to_owned()));
    }
    let ghost all = chunk_samples(chunks@);
    let mut out: Vec<F32> = Vec::new();
    assert(all.take(0).len() == 0);
    for i in 0..chunks.len()
        invariant
            all == chunk_samples(chunks@),
            out@ == assembled(all.take(i as int), gap as nat),
    {
        let ghost before = out@;
        let ghost silence = Seq::new(gap as nat, |i: int| F32 { bits: 0 });
        proof {
            assert(all.take(i + 1).drop_last() =~= all.take(i as int));
            assert(all.take(i + 1).last() == chunks@[i as int]@);
        }
        if i > 0 {
            for k in 0..gap
                invariant
                    out@ == before + Seq::new(k as nat, |i: int| F32 { bits: 0 }),
            {
                out.push(F32 { bits: 0 });
                assert(out@ =~= before + Seq::new((k + 1) as nat, |i: int| F32 { bits: 0 }));
            }
            assert(out@ =~= before + silence);
        }
        let ghost start = out@;
        let len: usize = chunks[i].len();
        for k in 0..len
            invariant
                i < chunks@.len(),
                len == chunks@[i as int]@.len(),
                out@ == start + chunks@[i as int]@.take(k as int),
        {
            out.push(chunks[i][k]);
            assert(out@ =~= start + chunks@[i as int]@.take(k + 1));
        }
        assert(chunks@[i as int]@.take(chunks@[i as int]@.len() as int) =~= chunks@[i as int]@);
        if i == 0 {
            assert(out@ =~= chunks@[0]@);
        }
    }
    assert(all.take(all.len() as int) =~= all);
    Ok(out)
}

/// Sentences waiting for synthesis.
pub struct SentenceQueue {
    pub sentences: Vec<String>,
    pub index: usize,
}

impl SentenceQueue {
    /// Whether the place in the queue is within it.
    pub open spec fn wf(&self) -> bool {
        self.index <= self.sentences@.len()
    }

    /// The sentences that are left.
    pub open spec fn left(&self) -> Seq<Seq<char>> {
        views(self.sentences@).skip(self.index as int)
    }

    /// A queue of the given sentences.
    pub fn new(sentences: Vec<String>) -> (r: Self)
        ensures
            r.wf(),
            r.left() == views(sentences@),
    {
        let r = SentenceQueue { sentences, index: 0 };
        assert(r.left() =~= views(sentences@));
        r
    }

    /// Takes the next sentence, with its place among all.
    pub fn next_sentence(&mut self) -> (r: Option<(usize, String)>)
        requires
            old(self).wf(),
        ensures
            final(self).wf(),
            match r {
                Some((i, s)) => {
                    &&& old(self).left().len() > 0
                    &&& i == old(self).index
                    &&& s@ == old(self).left()[0]
                    &&& final(self).left() == old(self).left().skip(1)
                    &&& final(self).index == old(self).index + 1
                },
                None => old(self).left().len() == 0 && final(self).left() == old(self).left(),
            },
            final(self).sentences == old(self).sentences,
    {
        if self.index >= self.sentences.len() {
            return None;
        }
        let i: usize = self.index;
        let s = self.sentences[i].clone();
        self.index = i + 1;
        assert(self.left() =~= old(self).left().skip(1));
        Some((i, s))
    }
}

/// Features kept by reference audio and reference text.
pub struct SpeakerCache<V> {
    pub entries: Vec<((String, String), V)>,
}

/// Whether an entry is that of a key.
pub open spec fn is_entry<V>(entry: ((String, String), V), audio: Seq<char>, text: Seq<char>) -> bool {
    entry.0.0@ == audio && entry.0.1@ == text
}

impl<V> SpeakerCache<V> {
    /// Whether no two entries have one key.
    pub open spec fn wf(&self) -> bool {
        forall|i: int, j: int|
            0 <= i < j < self.entries@.len() ==> !is_entry(
                #[trigger] self.entries@[j],
                (#[trigger] self.entries@[i]).0.0@,
                self.entries@[i].0.1@,
            )
    }

    /// What is kept for a key.
    pub open spec fn kept(&self, audio: Seq<char>, text: Seq<char>) -> Option<V> {
        if exists|i: int| 0 <= i < self.entries@.len() && is_entry(self.entries@[i], audio, text) {
            Some(
                self.entries@[choose|i: int|
                    0 <= i < self.entries@.len() && is_entry(self.entries@[i], audio, text)].1,
            )
        } else {
            None
        }
    }

    /// An empty cache.
    pub fn new() -> (r: Self)
        ensures
            r.wf(),
            forall|a: Seq<char>, t: Seq<char>| #[trigger] r.kept(a, t) is None,
    {
        SpeakerCache { entries: Vec::new() }
    }

    /// The place of a key, if something is kept for it.
    fn place(&self, audio: &str, text: &str) -> (r: Option<usize>)
        ensures
            match r {
                Some(i) => i < self.entries@.len() && is_entry(
                    self.entries@[i as int],
                    audio@,
                    text@,
                ),
                None => forall|k: int|
                    0 <= k < self.entries@.len() ==> !is_entry(
                        #[trigger] self.entries@[k],
                        audio@,
                        text@,
                    ),
            },
    {
        for i in 0..self.entries.len()
            invariant
                forall|k: int| 0 <= k < i ==> !is_entry(#[trigger] self.entries@[k], audio@, text@),
        {
            let key = &self.entries[i].0;
            if same(key.0.as_str(), audio) && same(key.1.as_str(), text) {
                return Some(i);
            }
        }
        None
    }

    /// What is kept for a key is at its place.
    proof fn lemma_kept_at(&self, i: int, audio: Seq<char>, text: Seq<char>)
        requires
            self.wf(),
            0 <= i < self.entries@.len(),
            is_entry(self.entries@[i], audio, text),
        ensures
            self.kept(audio, text) == Some(self.entries@[i].1),
    {
        let k = choose|k: int|
            0 <= k < self.entries@.len() && is_entry(self.entries@[k], audio, text);
        if k < i {
            assert(!is_entry(self.entries@[i], self.entries@[k].0.0@, self.entries@[k].0.1@));
        } else if i < k {
            assert(!is_entry(self.entries@[k], self.entries@[i].0.0@, self.entries@[i].0.1@));
        }
    }

    /// What is kept for a key, if anything.
    pub fn get(&self, audio: &str, text: &str) -> (r: Option<&V>)
        requires
            self.wf(),
        ensures
            match r {
                Some(v) => self.kept(audio@, text@) == Some(*v),
                None => self.kept(audio@, text@) is None,
            },
    {
        match self.place(audio, text) {
            Some(i) => {
                proof {
                    self.lemma_kept_at(i as int, audio@, text@);
                }
                Some(&self.entries[i].1)
            },
            None => None,
        }
    }

    /// Keeps features for a key, in place of what was kept for it.
    pub fn insert(&mut self, audio: &str, text: &str, features: V)
        requires
            old(self).wf(),
        ensures
            final(self).wf(),
            final(self).kept(audio@, text@) == Some(features),
            forall|a: Seq<char>, t: Seq<char>|
                (a, t) != (audio@, text@) ==> #[trigger] final(self).kept(a, t) == old(self).kept(
                    a,
                    t,
                ),
    {
        let ghost before = self.entries@;
        let found = self.place(audio, text);
        let entry = ((audio.to_owned(), text.to_owned()), features);
        let ghost at = match found {
            Some(i) => i as int,
            None => before.len() as int,
        };
        match found {
            Some(i) => {
                self.entries.set(i, entry);
            },
            None => {
                self.entries.push(entry);
            },
        }
        proof {
            assert forall|i: int, j: int| 0 <= i < j < self.entries@.len() implies !is_entry(
                #[trigger] self.entries@[j],
                (#[trigger] self.entries@[i]).0.0@,
                self.entries@[i].0.1@,
            ) by {
                if j < before.len() {
                    assert(!is_entry(before[j], before[i].0.0@, before[i].0.1@));
                } else {
                    assert(!is_entry(before[i], audio@, text@));
                }
            }
            self.lemma_kept_at(at, audio@, text@);
            assert forall|a: Seq<char>, t: Seq<char>| (a, t) != (audio@, text@) implies #[trigger] self.kept(
                a,
                t,
            ) == old(self).kept(a, t) by {
                if old(self).kept(a, t) is Some {
                    let k = choose|k: int| 0 <= k < before.len() && is_entry(before[k], a, t);
                    old(self).lemma_kept_at(k, a, t);
                    assert(is_entry(self.entries@[k], a, t));
                    self.lemma_kept_at(k, a, t);
                } else {
                    assert forall|m: int| 0 <= m < self.entries@.len() implies !is_entry(
                        #[trigger] self.entries@[m],
                        a,
                        t,
                    ) by {
                        if m < before.len() {
                            assert(!is_entry(before[m], a, t));
                        }
                    }
                }
            }
        }
    }

    /// Drops all features.
    pub fn clear(&mut self)
        ensures
            final(self).wf(),
            forall|a: Seq<char>, t: Seq<char>| #[trigger] final(self).kept(a, t) is None,
    {
        self.entries = Vec::new();
    }
}

/// A decoder goes by its own name, and the automatic mode stands for the decoder of the device.
pub proof fn decoders_go_by_their_names(backend: DecodeBackend, auto: DecodeBackend)
    ensures
        backend_of(backend_name(backend), auto) == Some(backend),
        backend_of(seq!['a', 'u', 't', 'o'], auto) == Some(auto),
{
    reveal_strlit("auto");
    reveal_strlit("plain");
    reveal_strlit("kv");
    reveal_strlit("cuda-graph");
    assert("auto"@ =~= seq!['a', 'u', 't', 'o']);
    assert("auto"@.len() == 4 && "plain"@.len() == 5 && "kv"@.len() == 2);
    assert("cuda-graph"@.len() == 10);
}

/// Graphs are used if and only if the device is CUDA, no model in another precision is loaded and
/// they are not switched off; speaking needs both models, whatever the decoder.
pub proof fn graphs_and_models_are_needed(
    cuda: bool,
    single_precision: Option<bool>,
    disabled: bool,
    backend: DecodeBackend,
    gpt: bool,
    sovits: bool,
)
    ensures
        automatic(cuda, single_precision, disabled) == DecodeBackend::CudaGraph <==> cuda
            && !disabled && single_precision != Some(false),
        automatic(cuda, single_precision, disabled) != DecodeBackend::Plain,
        missing_model(backend, gpt, sovits) is None <==> gpt && sovits,
{
}

} // verus!
