//! What a request goes through: the steps of each endpoint and what each outcome leads to.

use crate::float_bits::{silence_is_zero, F32};
use crate::inference::options::text_view;
use crate::server::audio::{
    pcm_bytes, pieces_of_audio_add_up, samples_stand_in_their_bytes, samples_to_pcm,
    streaming_wav_header, wav_head,
};
use crate::server::request::{text_fault, validate_request_text};
use crate::server::response::{
    code_of, format_named, headers_view, language_code, synthesis_headers, synthesis_headers_of,
    SpeechOutputFormat,
};
use crate::strings::{
    ascii_lowered, chars_of, decimal, decimal_string, lemma_views_push, trim, trimmed, views,
};
use crate::Language;
use base64::Engine;
use vstd::prelude::*;

verus! {

/// How far a request has come.
#[derive(Debug, Clone, Copy, PartialEq, Eq, Structural)]
pub enum Phase {
    Resolving,
    Acquiring,
    Synthesizing,
    Encoding,
    Answered,
}

/// How a step ended.
pub enum Outcome {
    /// It succeeded.
    Succeeded,
    /// It failed, with a message for the client.
    Refused(String),
    /// It broke off.
    Broke,
}

/// What to do next.
pub enum Step {
    /// Find the settings of the request.
    Resolve,
    /// Wait for a pipeline.
    Acquire,
    /// Run the synthesis.
    Synthesize,
    /// Encode the audio.
    Encode,
    /// Answer with the audio.
    Respond,
    /// Answer with a status and a message.
    Reject(u16, String),
    /// Answer with a bare status.
    Abort(u16),
}

/// A step by its view.
pub enum StepView {
    Resolve,
    Acquire,
    Synthesize,
    Encode,
    Respond,
    Reject(u16, Seq<char>),
    Abort(u16),
}

impl View for Step {
    type V = StepView;

    open spec fn view(&self) -> StepView {
        match self {
            Step::Resolve => StepView::Resolve,
            Step::Acquire => StepView::Acquire,
            Step::Synthesize => StepView::Synthesize,
            Step::Encode => StepView::Encode,
            Step::Respond => StepView::Respond,
            Step::Reject(status, message) => StepView::Reject(*status, message@),
            Step::Abort(status) => StepView::Abort(*status),
        }
    }
}

/// What follows a step: the next one on success; on failure the client is told, that the
/// request is wrong (400) while its settings are sought, that the service is busy (503) while
/// a pipeline is waited for, that synthesis failed (500) after that. A step that broke off,
/// and audio that cannot be encoded, end in a bare 500.
pub open spec fn following(phase: Phase, outcome: Outcome) -> (Phase, StepView) {
    match outcome {
        Outcome::Succeeded => match phase {
            Phase::Resolving => (Phase::Acquiring, StepView::Acquire),
            Phase::Acquiring => (Phase::Synthesizing, StepView::Synthesize),
            Phase::Synthesizing => (Phase::Encoding, StepView::Encode),
            Phase::Encoding => (Phase::Answered, StepView::Respond),
            Phase::Answered => (Phase::Answered, StepView::Abort(500)),
        },
        Outcome::Refused(m) => match phase {
            Phase::Resolving => (Phase::Answered, StepView::Reject(400, m@)),
            Phase::Acquiring => (Phase::Answered, StepView::Reject(503, m@)),
            Phase::Synthesizing => (Phase::Answered, StepView::Reject(500, m@)),
            Phase::Encoding => (Phase::Answered, StepView::Abort(500)),
            Phase::Answered => (Phase::Answered, StepView::Abort(500)),
        },
        Outcome::Broke => (Phase::Answered, StepView::Abort(500)),
    }
}

/// What follows a step.
pub fn follow(phase: Phase, outcome: Outcome) -> (r: (Phase, Step))
    ensures
        (r.0, r.1@) == following(phase, outcome),
{
    match outcome {
        Outcome::Succeeded => match phase {
            Phase::Resolving => (Phase::Acquiring, Step::Acquire),
            Phase::Acquiring => (Phase::Synthesizing, Step::Synthesize),
            Phase::Synthesizing => (Phase::Encoding, Step::Encode),
            Phase::Encoding => (Phase::Answered, Step::Respond),
            Phase::Answered => (Phase::Answered, Step::Abort(500)),
        },
        Outcome::Refused(m) => match phase {
            Phase::Resolving => (Phase::Answered, Step::Reject(400, m)),
            Phase::Acquiring => (Phase::Answered, Step::Reject(503, m)),
            Phase::Synthesizing => (Phase::Answered, Step::Reject(500, m)),
            Phase::Encoding => (Phase::Answered, Step::Abort(500)),
            Phase::Answered => (Phase::Answered, Step::Abort(500)),
        },
        Outcome::Broke => (Phase::Answered, Step::Abort(500)),
    }
}

/// A refused step is the last one: no failure leads on to another step.
pub proof fn refusal_ends_the_request(phase: Phase, message: String)
    ensures
        following(phase, Outcome::Refused(message)).0 == Phase::Answered,
        following(phase, Outcome::Broke).0 == Phase::Answered,
{
}

/// Begins a request for the synthesis of a text: text that is empty or too long is refused.
pub fn begin_tts(text: &str, field: &str, max_chars: usize) -> (r: (Phase, Step))
    ensures
        (r.0, r.1@) == match text_fault(text@, field@, max_chars as nat) {
            Some(m) => (Phase::Answered, StepView::Reject(400, m)),
            None => (Phase::Resolving, StepView::Resolve),
        },
{
    match validate_request_text(text, field, max_chars) {
        Ok(_) => (Phase::Resolving, Step::Resolve),
        Err(e) => (Phase::Answered, Step::Reject(400, e)),
    }
}

/// What is wrong with a speech request: its text, its voice or its format.
pub open spec fn speech_fault(
    input: Seq<char>,
    voice: Seq<char>,
    format: Option<Seq<char>>,
    max_chars: nat,
) -> Option<Seq<char>> {
    if text_fault(input, "input"@, max_chars) is Some {
        text_fault(input, "input"@, max_chars)
    } else if trimmed(voice).len() == 0 {
        Some("voice must not be empty"@)
    } else if format_named(format) is None {
        Some(
            "unsupported response_format: "@ + ascii_lowered(trimmed(format->0))
                + "; supported formats: wav, pcm"@,
        )
    } else {
        None
    }
}

/// Begins a speech request: the format of the answer, or why there is none.
pub fn begin_speech(input: &str, voice: &str, format: Option<&str>, max_chars: usize) -> (r: Result<
    SpeechOutputFormat,
    String,
>)
    ensures
        ({
            let asked = match format {
                Some(s) => Some(s@),
                None => None,
            };
            match r {
                Ok(f) => speech_fault(input@, voice@, asked, max_chars as nat) is None
                    && format_named(asked) == Some(f),
                Err(e) => speech_fault(input@, voice@, asked, max_chars as nat) == Some(e@),
            }
        }),
{
    match validate_request_text(input, "input", max_chars) {
        Ok(_) => {},
        Err(e) => {
            return Err(e);
        },
    }
    if trim(voice).as_str().is_empty() {
        return Err("voice must not be empty".to_owned());
    }
    SpeechOutputFormat::parse(format)
}

/// Adds a header.
fn push_header(headers: &mut Vec<(String, String)>, name: &str, value: &str)
    ensures
        headers_view(final(headers)@) == headers_view(old(headers)@).push((name@, value@)),
{
    headers.push((name.to_owned(), value.to_owned()));
    assert(headers_view(headers@) =~= headers_view(old(headers)@).push((name@, value@)));
}

/// The headers that describe audio.
pub open spec fn audio_headers(duration: Seq<char>, sample_rate: nat, channels: nat) -> Seq<
    (Seq<char>, Seq<char>),
> {
    seq![
        ("x-tts-duration-s"@, duration),
        ("x-tts-sample-rate"@, decimal(sample_rate)),
        ("x-tts-channels"@, decimal(channels)),
    ]
}

/// The headers of a synthesized WAV file. `duration` is its duration as it is to be shown.
pub fn tts_headers(
    voice: &Option<String>,
    language: Language,
    text_chars: usize,
    duration: &str,
    sample_rate: u32,
    channels: u16,
) -> (r: Vec<(String, String)>)
    ensures
        headers_view(r@) == synthesis_headers_of(text_view(*voice), language, text_chars as nat)
            + seq![
            ("content-type"@, "audio/wav"@),
            ("content-disposition"@, "attachment; filename=\"tts_output.wav\""@),
        ] + audio_headers(duration@, sample_rate as nat, channels as nat),
{
    let mut headers = synthesis_headers(voice, language, text_chars);
    let ghost first = headers_view(headers@);
    push_header(&mut headers, "content-type", "audio/wav");
    push_header(&mut headers, "content-disposition", "attachment; filename=\"tts_output.wav\"");
    push_header(&mut headers, "x-tts-duration-s", duration);
    push_header(&mut headers, "x-tts-sample-rate", decimal_string(sample_rate as u64).as_str());
    push_header(&mut headers, "x-tts-channels", decimal_string(channels as u64).as_str());
    assert(headers_view(headers@) =~= first + seq![
        ("content-type"@, "audio/wav"@),
        ("content-disposition"@, "attachment; filename=\"tts_output.wav\""@),
    ] + audio_headers(duration@, sample_rate as nat, channels as nat));
    headers
}

/// The content type of a format.
pub open spec fn content_type_of(format: SpeechOutputFormat) -> Seq<char> {
    match format {
        SpeechOutputFormat::Wav => "audio/wav"@,
        SpeechOutputFormat::Pcm => "application/octet-stream"@,
    }
}

/// The name of a format.
pub open spec fn format_name(format: SpeechOutputFormat) -> Seq<char> {
    match format {
        SpeechOutputFormat::Wav => "wav"@,
        SpeechOutputFormat::Pcm => "pcm"@,
    }
}

/// The headers of synthesized speech. `duration` is its duration as it is to be shown.
pub fn speech_headers(
    voice: &Option<String>,
    language: Language,
    text_chars: usize,
    format: SpeechOutputFormat,
    duration: &str,
    sample_rate: u32,
    channels: u16,
) -> (r: Vec<(String, String)>)
    ensures
        headers_view(r@) == synthesis_headers_of(text_view(*voice), language, text_chars as nat)
            + seq![
            ("content-type"@, content_type_of(format)),
            ("x-tts-api"@, "openai-audio-speech"@),
            ("x-tts-response-format"@, format_name(format)),
        ] + audio_headers(duration@, sample_rate as nat, channels as nat),
{
    let mut headers = synthesis_headers(voice, language, text_chars);
    let ghost first = headers_view(headers@);
    push_header(&mut headers, "content-type", format.content_type());
    push_header(&mut headers, "x-tts-api", "openai-audio-speech");
    push_header(&mut headers, "x-tts-response-format", format.as_header_value());
    push_header(&mut headers, "x-tts-duration-s", duration);
    push_header(&mut headers, "x-tts-sample-rate", decimal_string(sample_rate as u64).as_str());
    push_header(&mut headers, "x-tts-channels", decimal_string(channels as u64).as_str());
    assert(headers_view(headers@) =~= first + seq![
        ("content-type"@, content_type_of(format)),
        ("x-tts-api"@, "openai-audio-speech"@),
        ("x-tts-response-format"@, format_name(format)),
    ] + audio_headers(duration@, sample_rate as nat, channels as nat));
    headers
}

/// The headers of a WAV stream.
pub fn stream_headers(voice: &Option<String>, language: Language, text_chars: usize) -> (r: Vec<
    (String, String),
>)
    ensures
        headers_view(r@) == synthesis_headers_of(text_view(*voice), language, text_chars as nat)
            + seq![
            ("content-type"@, "audio/wav"@),
            ("transfer-encoding"@, "chunked"@),
            ("x-tts-streaming"@, "true"@),
        ],
{
    let mut headers = synthesis_headers(voice, language, text_chars);
    let ghost first = headers_view(headers@);
    push_header(&mut headers, "content-type", "audio/wav");
    push_header(&mut headers, "transfer-encoding", "chunked");
    push_header(&mut headers, "x-tts-streaming", "true");
    assert(headers_view(headers@) =~= first + seq![
        ("content-type"@, "audio/wav"@),
        ("transfer-encoding"@, "chunked"@),
        ("x-tts-streaming"@, "true"@),
    ]);
    headers
}

/// A stream of sentences as WAV bytes.
pub struct StreamState {
    pub header_sent: bool,
    pub stopped: bool,
}

/// What is sent for the audio of a sentence: the samples and `gap` silent ones behind them.
pub open spec fn sentence_bytes(samples: Seq<F32>, gap: nat) -> Seq<u8> {
    pcm_bytes(samples + Seq::new(gap, |i: int| F32 { bits: 0 }))
}

impl StreamState {
    /// A stream of which nothing was sent.
    pub fn new() -> (r: Self)
        ensures
            r == (StreamState { header_sent: false, stopped: false }),
    {
        StreamState { header_sent: false, stopped: false }
    }

    /// What to send for the audio of a sentence: the head of the file, where it was not sent
    /// yet, and the audio.
    pub fn sentence(&self, sample_rate: u32, channels: u16, samples: &Vec<F32>, gap: usize) -> (r: (
        Option<Vec<u8>>,
        Vec<u8>,
    ))
        requires
            sample_rate * channels * 16 <= u32::MAX,
            channels * 16 <= u16::MAX,
        ensures
            match r.0 {
                Some(h) => !self.header_sent && h@ == wav_head(
                    sample_rate as nat,
                    channels as nat,
                ),
                None => self.header_sent,
            },
            r.1@ == sentence_bytes(samples@, gap as nat),
    {
        let head = if self.header_sent {
            None
        } else {
            Some(streaming_wav_header(sample_rate, channels))
        };
        let mut all: Vec<F32> = Vec::new();
        for i in 0..samples.len()
            invariant
                all@ == samples@.take(i as int),
        {
            all.push(samples[i]);
        }
        assert(samples@.take(samples@.len() as int) =~= samples@);
        for k in 0..gap
            invariant
                all@ == samples@ + Seq::new(k as nat, |i: int| F32 { bits: 0 }),
        {
            all.push(F32 { bits: 0 });
            assert(all@ =~= samples@ + Seq::new((k + 1) as nat, |i: int| F32 { bits: 0 }));
        }
        (head, samples_to_pcm(all.as_slice()))
    }

    /// Notes whether the client took what was sent: the stream stops where it did not, and
    /// the head is sent once.
    pub fn sent(&mut self, head: bool, taken: bool)
        ensures
            final(self).stopped == (old(self).stopped || !taken),
            final(self).header_sent == (old(self).header_sent || (head && taken)),
    {
        if !taken {
            self.stopped = true;
        } else if head {
            self.header_sent = true;
        }
    }

    /// Notes that a sentence failed: nothing follows it.
    pub fn failed(&mut self)
        ensures
            final(self).stopped,
            final(self).header_sent == old(self).header_sent,
    {
        self.stopped = true;
    }
}

/// The digit of a value below 64 in the standard alphabet of Base64.
pub open spec fn base64_digit(v: nat) -> char {
    if v < 26 {
        (v + 'A' as nat) as char
    } else if v < 52 {
        (v - 26 + 'a' as nat) as char
    } else if v < 62 {
        (v - 52 + '0' as nat) as char
    } else if v == 62 {
        '+'
    } else {
        '/'
    }
}

/// Bytes in Base64 with the standard alphabet and padding: three bytes make four digits.
pub open spec fn base64_of(bytes: Seq<u8>) -> Seq<char>
    decreases bytes.len(),
{
    if bytes.len() == 0 {
        Seq::empty()
    } else if bytes.len() == 1 {
        let n = bytes[0] as nat * 16;
        seq![base64_digit(n / 64), base64_digit(n % 64), '=', '=']
    } else if bytes.len() == 2 {
        let n = (bytes[0] as nat * 256 + bytes[1] as nat) * 4;
        seq![base64_digit(n / 4096), base64_digit(n / 64 % 64), base64_digit(n % 64), '=']
    } else {
        let n = (bytes[0] as nat * 256 + bytes[1] as nat) * 256 + bytes[2] as nat;
        seq![
            base64_digit(n / 262144),
            base64_digit(n / 4096 % 64),
            base64_digit(n / 64 % 64),
            base64_digit(n % 64),
        ] + base64_of(bytes.skip(3))
    }
}

/// `Engine::encode` of the engine `base64::engine::general_purpose::STANDARD` writes bytes in
/// Base64 with the standard alphabet and padding.
#[verifier::external_body]
fn encode_base64(bytes: &Vec<u8>) -> (r: String)
    ensures
        r@ == base64_of(bytes@),
{
    base64::engine::general_purpose::STANDARD.encode(bytes)
}

/// How the synthesis of an item of a batch ended.
pub enum ItemOutcome {
    /// A WAV file, its sample rate and its duration in seconds.
    Audio(Vec<u8>, u32, F32),
    /// Audio that could not be encoded, and why.
    NotEncoded(String),
    /// No audio, and why.
    Failed(String),
}

/// The result of an item of a batch.
pub struct BatchItemResult {
    pub index: usize,
    pub voice: Option<String>,
    pub language: &'static str,
    pub text_chars: usize,
    pub wav_base64: Option<String>,
    pub error: Option<String>,
    pub sample_rate: u32,
    pub duration_s: F32,
    pub inference_ms: u64,
}

/// The result of an item of a batch: the WAV file in Base64, or the error.
pub fn batch_item(
    index: usize,
    voice: &Option<String>,
    language: Language,
    text: &str,
    outcome: ItemOutcome,
    inference_ms: u64,
) -> (r: BatchItemResult)
    ensures
        r.index == index,
        text_view(r.voice) == text_view(*voice),
        r.language@ == code_of(language),
        r.text_chars == text@.len(),
        r.inference_ms == inference_ms,
        match outcome {
            ItemOutcome::Audio(wav, rate, duration) => {
                &&& text_view(r.wav_base64) == Some(base64_of(wav@))
                &&& r.error is None
                &&& r.sample_rate == rate
                &&& r.duration_s == duration
            },
            ItemOutcome::NotEncoded(e) => {
                &&& r.wav_base64 is None
                &&& text_view(r.error) == Some("WAV encode failed: "@ + e@)
                &&& r.sample_rate == 0
                &&& r.duration_s.bits == 0
            },
            ItemOutcome::Failed(e) => {
                &&& r.wav_base64 is None
                &&& text_view(r.error) == Some(e@)
                &&& r.sample_rate == 0
                &&& r.duration_s.bits == 0
            },
        },
{
    let (wav_base64, error, sample_rate, duration_s) = match outcome {
        ItemOutcome::Audio(wav, rate, duration) => (
            Some(encode_base64(&wav)),
            None,
            rate,
            duration,
        ),
        ItemOutcome::NotEncoded(e) => {
            let mut message = "WAV encode failed: ".to_owned();
            message.push_str(e.as_str());
            (None, Some(message), 0, F32 { bits: 0 })
        },
        ItemOutcome::Failed(e) => (None, Some(e), 0, F32 { bits: 0 }),
    };
    BatchItemResult {
        index,
        voice: match voice {
            Some(v) => Some(v.clone()),
            None => None,
        },
        language: language_code(language),
        text_chars: chars_of(text).len(),
        wav_base64,
        error,
        sample_rate,
        duration_s,
        inference_ms,
    }
}

/// The voices of a list that are to be loaded: without white space, and none that is empty.
pub open spec fn voice_names(list: Seq<Seq<char>>) -> Seq<Seq<char>>
    decreases list.len(),
{
    if list.len() == 0 {
        Seq::empty()
    } else {
        let before = voice_names(list.drop_last());
        if trimmed(list.last()).len() > 0 {
            before.push(trimmed(list.last()))
        } else {
            before
        }
    }
}

/// The voices to load before the server is ready.
pub fn voices_to_preload(list: &Vec<String>) -> (r: Vec<String>)
    ensures
        views(r@) == voice_names(views(list@)),
{
    let ghost all = views(list@);
    let mut r: Vec<String> = Vec::new();
    assert(views(r@) =~= Seq::empty());
    for i in 0..list.len()
        invariant
            all == views(list@),
            views(r@) == voice_names(all.take(i as int)),
    {
        assert(all.take(i + 1).drop_last() =~= all.take(i as int));
        let name = trim(list[i].as_str());
        if !name.as_str().is_empty() {
            proof {
                lemma_views_push(r@, name);
            }
            r.push(name);
        }
    }
    assert(all.take(all.len() as int) =~= all);
    r
}

/// The voice that a request asks to have ready: its name without white space around it, which
/// is not empty.
pub fn voice_to_warm(voice: &str) -> (r: Result<String, String>)
    ensures
        match r {
            Ok(name) => trimmed(voice@).len() > 0 && name@ == trimmed(voice@),
            Err(e) => trimmed(voice@).len() == 0 && e@ == "voice must not be empty"@,
        },
{
    let name = trim(voice);
    if name.as_str().is_empty() {
        Err("voice must not be empty".to_owned())
    } else {
        Ok(name)
    }
}

/// Why a voice could not be made ready: its speaker could not be loaded, or the work broke off.
pub fn warmup_failure(broke: bool, cause: &str) -> (r: String)
    ensures
        r@ == if broke {
            "Warmup task failed: "@ + cause@
        } else {
            "Warmup failed: "@ + cause@
        },
{
    let mut r = if broke {
        "Warmup task failed: ".to_owned()
    } else {
        "Warmup failed: ".to_owned()
    };
    r.push_str(cause);
    r
}

/// The line that tells the size of the pipeline cache, which keeps at least one.
pub open spec fn cache_text(max_cached_pipelines: nat) -> Seq<char> {
    if max_cached_pipelines <= 1 {
        "Model pipeline cache: "@ + decimal(1) + " entry"@
    } else {
        "Model pipeline cache: "@ + decimal(max_cached_pipelines) + " entries"@
    }
}

/// The line that tells the size of the pipeline cache.
pub fn cache_line(max_cached_pipelines: usize) -> (r: String)
    ensures
        r@ == cache_text(max_cached_pipelines as nat),
{
    let n: usize = if max_cached_pipelines > 1 {
        max_cached_pipelines
    } else {
        1
    };
    let mut line = "Model pipeline cache: ".to_owned();
    line.push_str(decimal_string(n as u64).as_str());
    line.push_str(
        if n == 1 {
            " entry"
        } else {
            " entries"
        },
    );
    line
}

/// The endpoints, each with what it does.
pub open spec fn endpoint_lines() -> Seq<Seq<char>> {
    seq![
        "Endpoints:"@,
        "  GET  /health        - Health check"@,
        "  GET  /status        - Runtime and model-cache status"@,
        "  POST /warmup        - Load and warm one voice"@,
        "  GET  /voices        - List available voice profiles"@,
        "  POST /tts           - Single text -> audio/wav"@,
        "  POST /tts/stream    - Single text -> streaming audio/wav"@,
        "  POST /tts/batch     - Multiple texts -> NDJSON stream"@,
        "  POST /v1/audio/speech - OpenAI-compatible speech endpoint"@,
    ]
}

/// The line that tells where the server is found.
pub open spec fn address_line(port: nat) -> Seq<char> {
    "HTTP server started at http://localhost:"@ + decimal(port)
}

/// The lines that tell that the server is ready: where it is found, how many pipelines it keeps
/// and, behind an empty line, its endpoints.
pub fn ready_lines(port: u16, max_cached_pipelines: usize) -> (r: Vec<String>)
    ensures
        views(r@) == seq![
            address_line(port as nat),
            cache_text(max_cached_pipelines as nat),
            ""@,
        ] + endpoint_lines(),
{
    let mut address = "HTTP server started at http://localhost:".to_owned();
    address.push_str(decimal_string(port as u64).as_str());
    let r = vec![
        address,
        cache_line(max_cached_pipelines),
        "".to_owned(),
        "Endpoints:".to_owned(),
        "  GET  /health        - Health check".to_owned(),
        "  GET  /status        - Runtime and model-cache status".to_owned(),
        "  POST /warmup        - Load and warm one voice".to_owned(),
        "  GET  /voices        - List available voice profiles".to_owned(),
        "  POST /tts           - Single text -> audio/wav".to_owned(),
        "  POST /tts/stream    - Single text -> streaming audio/wav".to_owned(),
        "  POST /tts/batch     - Multiple texts -> NDJSON stream".to_owned(),
        "  POST /v1/audio/speech - OpenAI-compatible speech endpoint".to_owned(),
    ];
    assert(views(r@) =~= seq![
        address_line(port as nat),
        cache_text(max_cached_pipelines as nat),
        ""@,
    ] + endpoint_lines());
    r
}

/// A request whose every step succeeds has its settings sought, waits for a pipeline, is spoken,
/// encoded and answered, in this order; and a request that was answered takes no further step.
pub proof fn requests_go_step_by_step(message: String)
    ensures
        ({
            let (second, acquire) = following(Phase::Resolving, Outcome::Succeeded);
            let (third, speak) = following(second, Outcome::Succeeded);
            let (fourth, encode) = following(third, Outcome::Succeeded);
            let (last, respond) = following(fourth, Outcome::Succeeded);
            &&& acquire == StepView::Acquire
            &&& speak == StepView::Synthesize
            &&& encode == StepView::Encode
            &&& respond == StepView::Respond
            &&& last == Phase::Answered
            &&& following(Phase::Resolving, Outcome::Refused(message)).1 == StepView::Reject(
                400,
                message@,
            )
            &&& following(second, Outcome::Refused(message)).1 == StepView::Reject(503, message@)
            &&& following(third, Outcome::Refused(message)).1 == StepView::Reject(500, message@)
            &&& following(fourth, Outcome::Refused(message)).1 == StepView::Abort(500)
        }),
{
}

/// Only the last step of a request that went well answers it with audio.
pub proof fn only_encoded_audio_is_sent(phase: Phase, outcome: Outcome)
    ensures
        following(phase, outcome).1 == StepView::Respond <==> phase == Phase::Encoding
            && outcome is Succeeded,
        following(phase, outcome).0 == Phase::Answered <==> phase == Phase::Encoding || phase
            == Phase::Answered || !(outcome is Succeeded),
{
}

/// Voices are taken one after the other, each without white space around it, and those that are
/// nothing else are left out.
pub proof fn voices_are_named_in_order(a: Seq<Seq<char>>, b: Seq<Seq<char>>, name: Seq<char>)
    ensures
        voice_names(a + b) == voice_names(a) + voice_names(b),
        voice_names(seq![name]) == if trimmed(name).len() > 0 {
            seq![trimmed(name)]
        } else {
            Seq::empty()
        },
    decreases b.len(),
{
    assert(seq![name].drop_last().len() == 0);
    assert(voice_names(seq![name].drop_last()) =~= Seq::empty());
    assert(voice_names(seq![name]) =~= if trimmed(name).len() > 0 {
        seq![trimmed(name)]
    } else {
        Seq::empty()
    });
    if b.len() == 0 {
        assert(a + b =~= a);
        assert(voice_names(a) + voice_names(b) =~= voice_names(a));
    } else {
        voices_are_named_in_order(a, b.drop_last(), name);
        assert((a + b).drop_last() =~= a + b.drop_last());
        assert((a + b).last() == b.last());
        assert(voice_names(a + b) =~= voice_names(a) + voice_names(b));
    }
}

/// A sentence is sent with the silence behind it: its samples, and then zeros.
pub proof fn sentences_end_in_silence(samples: Seq<F32>, gap: nat, i: int)
    requires
        0 <= i < gap,
    ensures
        sentence_bytes(samples, gap).len() == 2 * (samples.len() + gap),
        sentence_bytes(samples, gap).take(2 * samples.len() as int) == pcm_bytes(samples),
        sentence_bytes(samples, gap)[2 * (samples.len() + i)] == 0,
        sentence_bytes(samples, gap)[2 * (samples.len() + i) + 1] == 0,
{
    let silence = Seq::new(gap, |i: int| F32 { bits: 0 });
    let all = samples + silence;
    pieces_of_audio_add_up(samples, silence);
    samples_stand_in_their_bytes(all, samples.len() + i);
    if samples.len() > 0 {
        samples_stand_in_their_bytes(samples, 0);
    }
    assert(pcm_bytes(all).take(2 * samples.len() as int) =~= pcm_bytes(samples));
    assert(all[samples.len() + i] == F32 { bits: 0 });
    silence_is_zero();
}

/// A speech request is taken if and only if its text is, a voice is named, and its format is one
/// that is known.
pub proof fn speech_requests_are_checked(
    input: Seq<char>,
    voice: Seq<char>,
    format: Option<Seq<char>>,
    max_chars: nat,
)
    ensures
        speech_fault(input, voice, format, max_chars) is None <==> trimmed(input).len() > 0
            && input.len() <= max_chars && trimmed(voice).len() > 0 && format_named(format) is Some,
{
}

} // verus!
