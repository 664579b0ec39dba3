use gpt_sovits_rs::float_bits::F32;
use gpt_sovits_rs::inference::options::{
    conservative_retry_options, InferenceOptions, CHUNK_RETRY_MIN_MAX_TOKENS,
    CHUNK_RETRY_TEMPERATURE, CHUNK_RETRY_TOP_P,
};
use gpt_sovits_rs::inference::pipeline::{
    assemble_chunks, automatic_inference_mode, inference_backend, is_ready, join_features,
    join_phonemes, reference_has_features, require_models, ContextFeatures, DecodeBackend,
    DecodeCall, SentenceQueue, SpeakerCache,
};
use gpt_sovits_rs::inference::reference::{needs_resampling, sample_scale};
use gpt_sovits_rs::inference::split::{
    split_cut5_for_language, split_sentences, split_sentences_for_language, split_text, SplitMethod,
};
use gpt_sovits_rs::{Error, Language};

fn single(x: f32) -> F32 {
    F32::from_bits(x.to_bits())
}

fn number(x: F32) -> f32 {
    f32::from_bits(x.to_bits())
}

#[test]
fn automatic_mode_uses_kv_on_cpu_without_loaded_models() {
    assert_eq!(automatic_inference_mode(false, None, false), "kv");
}

#[test]
fn automatic_mode_uses_a_graph_on_cuda_in_single_precision() {
    assert_eq!(automatic_inference_mode(true, Some(true), false), "cuda-graph");
    assert_eq!(automatic_inference_mode(true, Some(false), false), "kv");
    assert_eq!(automatic_inference_mode(true, Some(true), true), "kv");
}

#[test]
fn inference_mode_rejects_unknown_mode_before_model_access() {
    let error = inference_backend("bogus", DecodeBackend::KvCache)
        .err()
        .expect("unknown mode should fail");

    assert!(matches!(error, Error::ConfigError(_)));
    assert!(error.message().contains("Unsupported inference mode"));
}

#[test]
fn plain_inference_reports_missing_gpt_model_before_audio_access() {
    let backend = inference_backend("plain", DecodeBackend::KvCache).unwrap();
    let error = require_models(backend, false, false)
        .err()
        .expect("unloaded GPT should fail");

    assert!(matches!(error, Error::ModelLoadError(_)));
    assert!(error.message().contains("GPT model not loaded"));
}

#[test]
fn a_missing_sovits_model_is_reported() {
    let error = require_models(DecodeBackend::Plain, true, false).err().unwrap();
    assert!(error.message().contains("SoVITS model not loaded"));
    assert!(require_models(DecodeBackend::Plain, true, true).is_ok());
    assert!(is_ready(true, true));
    assert!(!is_ready(true, false));
}

#[test]
fn conservative_retry_options_make_sampling_less_random() {
    let options = InferenceOptions::builder()
        .temperature(single(0.9))
        .top_p(single(0.95))
        .max_tokens(300)
        .build();

    let retry_options = conservative_retry_options(&options);

    assert_eq!(retry_options.temperature.to_bits(), CHUNK_RETRY_TEMPERATURE);
    assert_eq!(retry_options.top_p.to_bits(), CHUNK_RETRY_TOP_P);
    assert_eq!(retry_options.max_tokens, CHUNK_RETRY_MIN_MAX_TOKENS);
    assert_eq!(f32::from_bits(CHUNK_RETRY_TEMPERATURE), 0.65);
    assert_eq!(f32::from_bits(CHUNK_RETRY_TOP_P), 0.85);
}

#[test]
fn careful_options_stay_as_they_are() {
    let options = InferenceOptions::builder()
        .temperature(single(0.3))
        .top_p(single(0.5))
        .max_tokens(900)
        .build();
    let retry = conservative_retry_options(&options);
    assert_eq!(number(retry.temperature), 0.3);
    assert_eq!(number(retry.top_p), 0.5);
    assert_eq!(retry.max_tokens, 900);
}

#[test]
fn builder_overrides_only_selected_fields() {
    let options = InferenceOptions::builder()
        .top_k(7)
        .temperature(single(0.6))
        .language(Language::English)
        .max_tokens(42)
        .build();

    assert_eq!(options.top_k, 7);
    assert_eq!(number(options.top_p), 0.95);
    assert!((number(options.temperature) - 0.6).abs() < f32::EPSILON);
    assert!((number(options.speed) - 1.0).abs() < f32::EPSILON);
    assert_eq!(options.language, Language::English);
    assert_eq!(options.max_tokens, 42);
    assert!((number(options.repetition_penalty) - 1.35).abs() < f32::EPSILON);
}

#[test]
fn cut5_keeps_decimal_numbers_together() {
    let chunks = split_cut5_for_language("value is 3.14, then stop", 1, Language::English);

    assert_eq!(chunks, vec!["value is 3.14,", "then stop."]);
}

#[test]
fn sentence_split_adds_language_appropriate_tail_punctuation() {
    assert_eq!(
        split_sentences_for_language("hello world", 1, Language::English),
        vec!["hello world."]
    );
    assert_eq!(
        split_sentences_for_language("hello world", 1, Language::Chinese),
        vec!["hello world。"]
    );
}

#[test]
fn short_sentences_are_put_together() {
    assert_eq!(split_sentences("好。天气很好。走吧！", 4), vec!["好。天气很好。走吧！"]);
    assert_eq!(
        split_sentences("好。天气很好。我们走吧！", 4),
        vec!["好。天气很好。", "我们走吧！"]
    );
}

#[test]
fn split_methods_are_named_in_any_case() {
    assert_eq!(SplitMethod::parse("CUT5"), Some(SplitMethod::Cut5));
    assert_eq!(SplitMethod::parse("sentence"), Some(SplitMethod::Sentence));
    assert_eq!(SplitMethod::parse("cut1"), None);
}

#[test]
fn backends_tell_their_calls() {
    assert!(matches!(
        inference_backend("auto", DecodeBackend::CudaGraph),
        Ok(DecodeBackend::CudaGraph)
    ));
    assert!(matches!(
        inference_backend("kv", DecodeBackend::Plain),
        Ok(DecodeBackend::KvCache)
    ));
    assert!(matches!(
        DecodeBackend::KvCache.decode_call(3, 4, 5),
        DecodeCall::KvCache
    ));
    assert!(matches!(
        DecodeBackend::CudaGraph.decode_call(3, 4, 5),
        DecodeCall::CudaGraph(room) if room >= 12
    ));
}

#[test]
fn the_reference_comes_before_the_target() {
    assert_eq!(join_phonemes(&vec![1, 2], &vec![3]), vec![1, 2, 3]);
    assert!(matches!(join_features(true, true), ContextFeatures::ReferenceAndTarget));
    assert!(matches!(join_features(false, true), ContextFeatures::Target));
    assert!(matches!(join_features(true, false), ContextFeatures::Absent));
    assert!(!reference_has_features(true, true, 0));
}

#[test]
fn chunks_are_put_together_with_gaps() {
    let chunks = vec![vec![single(1.0)], vec![single(2.0), single(3.0)]];
    let audio = assemble_chunks(&chunks, 2).ok().unwrap();
    assert_eq!(
        audio.into_iter().map(number).collect::<Vec<_>>(),
        vec![1.0, 0.0, 0.0, 2.0, 3.0]
    );
    assert!(assemble_chunks(&Vec::new(), 2).is_err());
}

#[test]
fn sentences_come_in_their_order() {
    let mut queue = SentenceQueue::new(vec!["a".to_string(), "b".to_string()]);
    assert_eq!(queue.next_sentence(), Some((0, "a".to_string())));
    assert_eq!(queue.next_sentence(), Some((1, "b".to_string())));
    assert_eq!(queue.next_sentence(), None);
}

#[test]
fn speakers_are_found_by_audio_and_text() {
    let mut cache: SpeakerCache<u32> = SpeakerCache::new();
    cache.insert("a.wav", "hello", 1);
    cache.insert("a.wav", "bye", 2);
    cache.insert("a.wav", "hello", 3);
    assert_eq!(cache.get("a.wav", "hello"), Some(&3));
    assert_eq!(cache.get("a.wav", "bye"), Some(&2));
    assert_eq!(cache.get("b.wav", "bye"), None);
    cache.clear();
    assert_eq!(cache.get("a.wav", "bye"), None);
}

#[test]
fn samples_are_scaled_by_their_bits() {
    assert_eq!(sample_scale(8), 127);
    assert_eq!(sample_scale(16), 32767);
    assert_eq!(sample_scale(24), 8388608);
    assert_eq!(sample_scale(32), 32767);
}

#[test]
fn full_token_budgets_are_reported() {
    let (line, warning) = DecodeBackend::KvCache.log_generated(12, 100);
    assert_eq!(line, "Generated 12 semantic tokens (kv_cache)");
    assert!(warning.is_none());
    let (line, warning) = DecodeBackend::Plain.log_generated(100, 100);
    assert_eq!(line, "Generated 100 semantic tokens");
    assert_eq!(
        warning.as_deref(),
        Some("Generated token count reached max_tokens=100 in plain mode; output may be truncated")
    );
}

#[test]
fn only_other_rates_are_resampled() {
    assert!(needs_resampling(44_100, 16_000));
    assert!(!needs_resampling(16_000, 16_000));
}

#[test]
fn only_a_cache_of_fixed_size_needs_room() {
    assert_eq!(DecodeBackend::KvCache.decode_call(3, 4, usize::MAX), DecodeCall::KvCache);
    assert_eq!(DecodeBackend::CudaGraph.decode_call(3, 0, usize::MAX), DecodeCall::WithFeatures);
}

#[test]
fn chunks_keep_letters_and_numbers_and_are_long_enough() {
    let text = "第一句……第二句——有3.14和2个。End";
    let letters = |s: &str| s.chars().filter(|c| c.is_alphanumeric()).collect::<String>();
    for method in [SplitMethod::Sentence, SplitMethod::Cut5] {
        let chunks = split_text(text, 4, Language::Chinese, method);
        assert_eq!(letters(&chunks.concat()), letters(text));
        assert!(chunks.len() >= 2);
        assert!(chunks.iter().all(|chunk| chunk.chars().count() >= 4));
    }
}

#[test]
fn chunks_are_trimmed_spoken_and_closed() {
    for method in [SplitMethod::Sentence, SplitMethod::Cut5] {
        let chunks = split_text("  ，你好。 … 再见 ！ 3.14 是", 1, Language::Chinese, method);
        assert!(!chunks.is_empty());
        for chunk in chunks {
            assert_eq!(chunk, chunk.trim());
            assert!(chunk.chars().any(char::is_alphanumeric));
            assert!("。！".contains(chunk.chars().last().unwrap()));
        }
    }
    assert_eq!(split_text("a\nb", 1, Language::English, SplitMethod::Sentence), vec!["a", "b."]);
}
