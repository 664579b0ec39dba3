use gpt_sovits_rs::float_bits::F32;
use gpt_sovits_rs::inference::split::SplitMethod;
use gpt_sovits_rs::server::handlers::{
    batch_item, begin_speech, begin_tts, cache_line, follow, ready_lines, speech_headers, stream_headers, tts_headers,
    voice_to_warm, voices_to_preload, warmup_failure, ItemOutcome, Outcome, Phase, Step, StreamState,
};
use gpt_sovits_rs::server::json::{
    json_error, status_answer, voices_answer, warm_answer, ServerStatus,
};
use gpt_sovits_rs::server::pipeline_registry::{PipelineCache, PipelineKey};
use gpt_sovits_rs::server::request::{
    resolve_synthesis, selected_voice, validate_batch, validate_request_text, validate_text,
    LoadedVoice, RequestPathPolicy, SynthesisRequest,
};
use gpt_sovits_rs::server::response::{language_code, safe_header_value, SpeechOutputFormat};
use gpt_sovits_rs::voice::{InferenceOptionOverrides, VoiceDefaults, VoiceProfile};
use gpt_sovits_rs::Language;

fn single(x: f32) -> F32 {
    F32::from_bits(x.to_bits())
}

fn number(x: F32) -> f32 {
    f32::from_bits(x.to_bits())
}

fn fallback() -> VoiceDefaults {
    VoiceDefaults {
        language: "zh".to_string(),
        mode: "auto".to_string(),
        split_sentences: true,
        split_method: SplitMethod::Cut5,
        min_sentence_chars: 8,
        sentence_gap_ms: 120,
        sentence_fade_ms: 8,
        top_k: 15,
        top_p: single(0.95),
        temperature: single(0.8),
        speed: single(1.0),
        max_tokens: 1500,
        repetition_penalty: single(1.35),
    }
}

fn profile() -> VoiceProfile {
    VoiceProfile {
        language: None,
        mode: None,
        split_sentences: None,
        split_method: None,
        min_sentence_chars: None,
        sentence_gap_ms: None,
        sentence_fade_ms: None,
        sampling: InferenceOptionOverrides::default(),
    }
}

fn request() -> SynthesisRequest {
    SynthesisRequest {
        text_language: None,
        refer_wav_path: None,
        prompt_text: None,
        overrides: InferenceOptionOverrides::default(),
    }
}

#[test]
fn text_limit_counts_unicode_characters() {
    assert!(validate_request_text("你好", "text", 2).is_ok());
    let error = validate_request_text("你好呀", "text", 2).unwrap_err();
    assert!(error.contains("2 character limit"));
    assert!(error.contains("3 received"));
}

#[test]
fn text_limit_still_rejects_empty_input() {
    assert!(validate_request_text("  ", "text", 10).is_err());
}

#[test]
fn validate_text_rejects_empty_or_whitespace_input() {
    assert!(validate_text("", "text").is_err());
    assert!(validate_text("   ", "input").is_err());
    assert!(validate_text("hello", "text").is_ok());
}

#[test]
fn sanitizes_non_ascii_header_values() {
    assert_eq!(safe_header_value("mao"), "mao");
    assert_eq!(safe_header_value("角色 A"), "__ A");
}

#[test]
fn accepts_only_lossless_speech_formats_for_openai_endpoint() {
    assert_eq!(
        SpeechOutputFormat::parse(None).unwrap(),
        SpeechOutputFormat::Wav
    );
    assert_eq!(
        SpeechOutputFormat::parse(Some("wav")).unwrap(),
        SpeechOutputFormat::Wav
    );
    assert_eq!(
        SpeechOutputFormat::parse(Some(" PCM ")).unwrap(),
        SpeechOutputFormat::Pcm
    );
    assert!(SpeechOutputFormat::parse(Some("mp3")).is_err());
    assert!(SpeechOutputFormat::parse(Some("opus")).is_err());
}

fn key(name: &str) -> PipelineKey {
    PipelineKey {
        gpt: Some(format!("{name}-gpt.safetensors")),
        sovits: Some(format!("{name}-sovits.safetensors")),
        bigvgan: None,
    }
}

#[test]
fn cache_evicts_the_least_recently_used_entry() {
    let first = key("first");
    let second = key("second");
    let third = key("third");
    let mut cache = PipelineCache::new(2, key("first"), 1);
    cache.insert(key("second"), 2);
    assert!(cache.get(&first).is_some());

    let (evicted, pipeline) = cache
        .evict_before_insert(&third)
        .expect("full cache should evict one entry");
    assert_eq!(pipeline, 2);
    cache.insert(key("third"), 3);

    assert!(evicted.same_as(&second));
    assert!(cache.contains_key(&first));
    assert!(cache.contains_key(&third));
    assert_eq!(cache.len(), 2);
}

#[test]
fn a_cache_holds_at_least_one_pipeline() {
    let mut cache = PipelineCache::new(0, key("a"), 1);
    assert_eq!(cache.get(&key("a")), Some(&1));
    assert!(cache.evict_before_insert(&key("a")).is_none());
    assert!(cache.evict_before_insert(&key("b")).is_some());
    cache.insert(key("b"), 2);
    assert_eq!(cache.get(&key("a")), None);
    assert_eq!(cache.get(&key("b")), Some(&2));
}

#[test]
fn keys_are_taken_from_the_voice_first() {
    let voice = PipelineKey { gpt: Some("v.safetensors".to_string()), sovits: None, bigvgan: None };
    let chosen = PipelineKey::key_for(&voice, &key("d"));
    assert_eq!(chosen.gpt.as_deref(), Some("v.safetensors"));
    assert_eq!(chosen.sovits.as_deref(), Some("d-sovits.safetensors"));
}

#[test]
fn resolves_legacy_reference_fields_without_voice() {
    let request = SynthesisRequest {
        text_language: Some("zh".to_string()),
        refer_wav_path: Some("voices/ref.wav".to_string()),
        prompt_text: Some("prompt".to_string()),
        overrides: InferenceOptionOverrides {
            top_k: Some(20),
            top_p: Some(single(0.9)),
            temperature: Some(single(0.7)),
            speed: Some(single(1.1)),
            ..Default::default()
        },
    };
    let resolved = resolve_synthesis(&request, None, fallback(), true).ok().unwrap();

    assert_eq!(resolved.language, Language::Chinese);
    assert_eq!(resolved.refer_path, "voices/ref.wav");
    assert_eq!(resolved.prompt_text, "prompt");
    assert_eq!(resolved.options.top_k, 20);
    assert!((number(resolved.options.top_p) - 0.9).abs() < 0.001);
    assert!((number(resolved.options.temperature) - 0.7).abs() < 0.001);
    assert!((number(resolved.options.speed) - 1.1).abs() < 0.001);
}

#[test]
fn resolves_voice_profile_defaults() {
    let profile = VoiceProfile {
        language: Some("zh".to_string()),
        sampling: InferenceOptionOverrides {
            top_k: Some(11),
            top_p: Some(single(0.8)),
            temperature: Some(single(0.6)),
            speed: Some(single(1.2)),
            max_tokens: Some(123),
            repetition_penalty: Some(single(1.2)),
        },
        ..profile()
    };
    let voice = LoadedVoice {
        name: "mao".to_string(),
        reference_audio: Some("voices/mao/ref.wav".to_string()),
        reference_text: Some("会战兵力是八十万对六十万，优势在我".to_string()),
    };
    let defaults = VoiceDefaults::from_profile(Some(&profile), fallback());
    let resolved = resolve_synthesis(&request(), Some(voice), defaults, true).ok().unwrap();

    assert_eq!(resolved.voice.as_deref(), Some("mao"));
    assert_eq!(resolved.mode, "auto");
    assert_eq!(resolved.refer_path, "voices/mao/ref.wav");
    assert_eq!(resolved.prompt_text, "会战兵力是八十万对六十万，优势在我");
    assert_eq!(resolved.options.top_k, 11);
    assert!((number(resolved.options.top_p) - 0.8).abs() < 0.001);
    assert!((number(resolved.options.temperature) - 0.6).abs() < 0.001);
    assert!((number(resolved.options.speed) - 1.2).abs() < 0.001);
    assert_eq!(resolved.options.max_tokens, 123);
    assert!((number(resolved.options.repetition_penalty) - 1.2).abs() < 0.001);
}

#[test]
fn request_values_override_voice_defaults() {
    let profile = VoiceProfile {
        language: Some("zh".to_string()),
        sampling: InferenceOptionOverrides {
            top_k: Some(11),
            top_p: Some(single(0.8)),
            temperature: Some(single(0.6)),
            speed: Some(single(1.2)),
            ..Default::default()
        },
        ..profile()
    };
    let voice = LoadedVoice {
        name: "mao".to_string(),
        reference_audio: Some("voices/mao/voice.wav".to_string()),
        reference_text: Some("voice prompt".to_string()),
    };
    let request = SynthesisRequest {
        text_language: Some("en".to_string()),
        refer_wav_path: Some("voices/request.wav".to_string()),
        prompt_text: Some("request prompt".to_string()),
        overrides: InferenceOptionOverrides {
            top_k: Some(33),
            top_p: Some(single(0.7)),
            temperature: Some(single(0.5)),
            speed: Some(single(0.9)),
            ..Default::default()
        },
    };
    let defaults = VoiceDefaults::from_profile(Some(&profile), fallback());
    let resolved = resolve_synthesis(&request, Some(voice), defaults, true).ok().unwrap();

    assert_eq!(resolved.language, Language::English);
    assert_eq!(resolved.refer_path, "voices/request.wav");
    assert_eq!(resolved.prompt_text, "request prompt");
    assert_eq!(resolved.options.top_k, 33);
    assert!((number(resolved.options.top_p) - 0.7).abs() < 0.001);
    assert!((number(resolved.options.temperature) - 0.5).abs() < 0.001);
    assert!((number(resolved.options.speed) - 0.9).abs() < 0.001);
}

#[test]
fn resolves_voice_inference_mode() {
    let profile = VoiceProfile { mode: Some("cuda-graph".to_string()), ..profile() };
    let voice = LoadedVoice {
        name: "fast".to_string(),
        reference_audio: Some("voices/fast/ref.wav".to_string()),
        reference_text: Some("prompt".to_string()),
    };
    let defaults = VoiceDefaults::from_profile(Some(&profile), fallback());
    let resolved = resolve_synthesis(&request(), Some(voice), defaults, true).ok().unwrap();

    assert_eq!(resolved.mode, "cuda-graph");
}

#[test]
fn rejects_requests_without_reference_data() {
    let request = SynthesisRequest { text_language: Some("zh".to_string()), ..request() };
    let error = resolve_synthesis(&request, None, fallback(), false)
        .err()
        .expect("missing reference data should fail");

    assert!(error.contains("reference audio is required"));
}

#[test]
fn rejects_missing_reference_audio_path() {
    let request = SynthesisRequest {
        text_language: Some("zh".to_string()),
        refer_wav_path: Some("missing.wav".to_string()),
        prompt_text: Some("prompt".to_string()),
        ..request()
    };
    let error = resolve_synthesis(&request, None, fallback(), false)
        .err()
        .expect("missing reference path should fail");

    assert!(error.contains("reference audio not found"));
}

#[test]
fn rejects_languages_and_texts_that_are_missing() {
    let bad = SynthesisRequest { text_language: Some("xx".to_string()), ..request() };
    assert!(resolve_synthesis(&bad, None, fallback(), true).err().unwrap().contains("xx"));
    let silent = SynthesisRequest { refer_wav_path: Some("a.wav".to_string()), ..request() };
    assert!(resolve_synthesis(&silent, None, fallback(), true)
        .err()
        .unwrap()
        .contains("reference text is required"));
}

#[test]
fn batches_are_bounded() {
    let texts = vec!["a".to_string(), "".to_string()];
    assert!(validate_batch(&texts, 1, 10).is_err());
    assert!(validate_batch(&texts, 2, 10).unwrap_err().contains("1"));
    assert!(validate_batch(&Vec::new(), 2, 10).is_err());
    assert!(validate_batch(&vec!["a".to_string()], 2, 10).is_ok());
}

#[test]
fn voices_are_selected_by_trimmed_names() {
    assert_eq!(selected_voice(Some(" mao ".to_string())), Some("mao".to_string()));
    assert_eq!(selected_voice(Some("  ".to_string())), None);
    assert_eq!(selected_voice(None), None);
    assert_eq!(
        voices_to_preload(&vec![" a".to_string(), "".to_string(), "b ".to_string()]),
        vec!["a".to_string(), "b".to_string()]
    );
}

#[test]
fn a_request_goes_step_by_step() {
    let (phase, step) = begin_tts("hello", "text", 10);
    assert!(matches!(step, Step::Resolve));
    let (phase, step) = follow(phase, Outcome::Succeeded);
    assert!(matches!(step, Step::Acquire));
    let (phase, step) = follow(phase, Outcome::Succeeded);
    assert!(matches!(step, Step::Synthesize));
    let (phase, step) = follow(phase, Outcome::Succeeded);
    assert!(matches!(step, Step::Encode));
    let (phase, step) = follow(phase, Outcome::Succeeded);
    assert!(matches!(step, Step::Respond));
    assert!(matches!(phase, Phase::Answered));
}

#[test]
fn a_refused_request_is_answered_with_the_reason() {
    let (phase, step) = begin_tts(" ", "text", 10);
    assert!(matches!(step, Step::Reject(400, ref m) if m.contains("must not be empty")));
    assert!(matches!(phase, Phase::Answered));
    let (_, step) = follow(Phase::Resolving, Outcome::Refused("no such voice".to_string()));
    assert!(matches!(step, Step::Reject(400, ref m) if m == "no such voice"));
}

#[test]
fn speech_requests_need_a_voice_and_a_known_format() {
    assert!(begin_speech("hi", "mao", Some("wav"), 10).is_ok());
    assert!(begin_speech("hi", "", None, 10).is_err());
    assert!(begin_speech("", "mao", None, 10).is_err());
    assert!(begin_speech("hi", "mao", Some("mp3"), 10).is_err());
}

#[test]
fn headers_hold_plain_text() {
    let headers = stream_headers(&Some("角色".to_string()), Language::Chinese, 3);
    assert!(headers.iter().any(|(_, value)| value == "__"));
    assert!(headers.iter().any(|(_, value)| value == "zh"));
    let headers = tts_headers(&None, Language::English, 3, "1.5", 32_000, 1);
    assert!(headers.iter().any(|(_, value)| value == "32000"));
    assert_eq!(language_code(Language::Korean), "ko");
}

#[test]
fn a_stream_sends_its_header_once() {
    let mut stream = StreamState::new();
    let (head, audio) = stream.sentence(32_000, 1, &vec![single(0.5)], 2);
    assert_eq!(head.as_ref().map(|h| h.len()), Some(44));
    assert_eq!(audio.len(), 6);
    stream.sent(true, true);
    let (head, audio) = stream.sentence(32_000, 1, &vec![single(0.5)], 2);
    assert!(head.is_none());
    assert_eq!(audio.len(), 6);
}

#[test]
fn batch_items_hold_audio_as_text() {
    let item = batch_item(
        1,
        &None,
        Language::English,
        "hi",
        ItemOutcome::Audio(b"RIFF".to_vec(), 32_000, single(0.5)),
        7,
    );
    assert_eq!(item.wav_base64.as_deref(), Some("UklGRg=="));
    assert_eq!(item.language, "en");
    assert_eq!(item.text_chars, 2);
    assert_eq!(item.error, None);
    let item = batch_item(
        2,
        &Some("mao".to_string()),
        Language::English,
        "hi",
        ItemOutcome::Failed("boom".to_string()),
        7,
    );
    assert_eq!(item.wav_base64, None);
    assert_eq!(item.error.as_deref(), Some("boom"));
    assert_eq!(item.index, 2);
}

#[test]
fn the_cache_is_told_in_words() {
    assert_eq!(cache_line(0), "Model pipeline cache: 1 entry");
    assert_eq!(cache_line(3), "Model pipeline cache: 3 entries");
}

#[test]
fn warmups_need_a_voice() {
    assert_eq!(voice_to_warm(" amy\n"), Ok("amy".to_string()));
    assert_eq!(voice_to_warm(" \n"), Err("voice must not be empty".to_string()));
    assert_eq!(warmup_failure(false, "no model"), "Warmup failed: no model");
    assert_eq!(warmup_failure(true, "cancelled"), "Warmup task failed: cancelled");
}

#[test]
fn a_ready_server_lists_its_endpoints() {
    let lines = ready_lines(8080, 0);
    assert_eq!(lines[0], "HTTP server started at http://localhost:8080");
    assert_eq!(lines[1], "Model pipeline cache: 1 entry");
    assert_eq!(lines[2], "");
    assert_eq!(lines.len(), 12);
    assert_eq!(ready_lines(8080, 2)[1], "Model pipeline cache: 2 entries");
}

#[test]
fn speech_answers_name_their_format() {
    let headers = speech_headers(
        &None,
        Language::English,
        5,
        SpeechOutputFormat::Pcm,
        "0.250",
        32_000,
        1,
    );
    let value = |name: &str| {
        headers.iter().find(|(key, _)| key == name).map(|(_, value)| value.as_str())
    };
    assert_eq!(value("x-tts-api"), Some("openai-audio-speech"));
    assert_eq!(value("x-tts-response-format"), Some("pcm"));
    assert_eq!(value("x-tts-duration-s"), Some("0.250"));
    assert_eq!(value("x-tts-sample-rate"), Some("32000"));
    assert_eq!(value("x-tts-channels"), Some("1"));
}

#[test]
fn one_path_is_one_key_however_it_is_written() {
    let key = |path: &str| PipelineKey { gpt: Some(path.to_string()), sovits: None, bigvgan: None };
    let mut cache = PipelineCache::new(2, key("m//gpt.st"), 1);
    assert_eq!(cache.get(&key("m/./gpt.st/")), Some(&1));
    assert_eq!(cache.get(&key("/m/gpt.st")), None);
    cache.insert(key("m/gpt.st"), 2);
    assert_eq!(cache.len(), 1);
}

#[test]
fn refusals_are_answered_in_json() {
    let answer = json_error(400, "no \"text\"\n\u{1f}\u{8}\\ 好");
    assert_eq!(answer.status, 400);
    let said = r#""no \"text\"\n\u001f\b\\ 好""#;
    assert_eq!(answer.body, format!(r#"{{"error":{said},"message":{said},"success":false}}"#));
    let read: serde_json::Value = serde_json::from_str(&answer.body).unwrap();
    assert_eq!(read["message"], "no \"text\"\n\u{1f}\u{8}\\ 好");
    assert_eq!(read["success"], false);
}

#[test]
fn the_server_tells_of_itself_in_json() {
    assert_eq!(warm_answer("amy").body, r#"{"status":"ready","voice":"amy"}"#);
    let voices = vec!["amy".to_string(), "bo".to_string()];
    assert_eq!(voices_answer(&voices).body, r#"{"voices":["amy","bo"]}"#);
    assert_eq!(voices_answer(&Vec::new()).body, r#"{"voices":[]}"#);
    let answer = status_answer(&ServerStatus {
        cached_pipelines: 1,
        pipeline_cache_capacity: 2,
        pipeline_cache_hits: 3,
        pipeline_cache_misses: 4,
        pipeline_evictions: 5,
        queued_requests: 6,
        busy: true,
        max_text_chars: 7,
        max_batch_items: 8,
    });
    assert_eq!(answer.status, 200);
    assert_eq!(
        answer.body,
        "{\"busy\":true,\"cached_pipelines\":1,\"gpu_inference_serialized\":true,\
         \"max_batch_items\":8,\"max_text_chars\":7,\"pipeline_cache_capacity\":2,\
         \"pipeline_cache_hits\":3,\"pipeline_cache_misses\":4,\"pipeline_evictions\":5,\
         \"queued_requests\":6,\"status\":\"ready\"}"
    );
}

#[test]
fn requests_name_files_of_the_voices_unless_more_is_allowed() {
    let strict = RequestPathPolicy { allow_external_reference_paths: false };
    assert_eq!(strict.check("voices/a/ref.wav", true, true), Ok(()));
    assert_eq!(strict.check("/srv/ref.wav", false, false), Ok(()));
    assert_eq!(
        strict.check("/srv/ref.wav", true, false),
        Err("reference audio is outside the voices directory: /srv/ref.wav".to_string())
    );
    let open = RequestPathPolicy { allow_external_reference_paths: true };
    assert_eq!(open.check("/srv/ref.wav", true, false), Ok(()));
}
