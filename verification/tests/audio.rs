use gpt_sovits_rs::audio_checks::{
    scan_samples, validate_audio_quality, AudioIssue, AudioQualityMetrics, AudioQualityThresholds,
};
use gpt_sovits_rs::float_bits::{to_pcm, F32};
use gpt_sovits_rs::inference::quality::{
    chunk_quality_issues, judge_first_try, keep_second_try, min_chunk_duration_s,
    spoken_char_count, ChunkVerdict,
};
use gpt_sovits_rs::server::audio::{checked_wav_header, samples_to_pcm, streaming_wav_header};

fn single(x: f32) -> F32 {
    F32::from_bits(x.to_bits())
}

fn singles(xs: &[f32]) -> Vec<F32> {
    xs.iter().map(|&x| single(x)).collect()
}

fn metrics(samples: &[f32], sample_rate: u32) -> AudioQualityMetrics {
    let scan = scan_samples(&singles(samples));
    let n = samples.len().max(1) as f64;
    let finite: Vec<f64> = samples.iter().filter(|s| s.is_finite()).map(|&s| s as f64).collect();
    let count = samples.len().max(1) as f32;
    AudioQualityMetrics {
        duration_s: single(samples.len() as f32 / sample_rate as f32),
        peak: scan.peak,
        rms: single((finite.iter().map(|s| s * s).sum::<f64>() / n).sqrt() as f32),
        clipping_ratio: single(scan.clipped as f32 / count),
        silence_ratio: single(scan.silent as f32 / count),
        dc_offset: single((finite.iter().sum::<f64>() / n) as f32),
        has_non_finite: scan.has_non_finite,
    }
}

fn shown(issues: &[AudioIssue]) -> Vec<String> {
    issues.iter().map(|issue| issue.message("v", "l")).collect()
}

#[test]
fn accepts_normal_audio() {
    let samples: Vec<f32> = (0..24_000)
        .map(|i| ((i as f32) * 0.01).sin() * 0.2)
        .collect();
    let issues = shown(&validate_audio_quality(
        &metrics(&samples, 24_000),
        &AudioQualityThresholds::default(),
    ));
    assert!(issues.is_empty(), "{issues:?}");
}

#[test]
fn flags_silence() {
    let issues = shown(&validate_audio_quality(
        &metrics(&vec![0.0; 24_000], 24_000),
        &AudioQualityThresholds::default(),
    ));
    assert!(issues.iter().any(|issue| issue.contains("rms")));
    assert!(issues.iter().any(|issue| issue.contains("silence")));
}

#[test]
fn flags_clipping_and_non_finite_samples() {
    let mut samples = vec![1.0; 24_000];
    samples[0] = f32::NAN;
    let issues = shown(&validate_audio_quality(
        &metrics(&samples, 24_000),
        &AudioQualityThresholds::default(),
    ));
    assert!(issues.iter().any(|issue| issue.contains("NaN")));
    assert!(issues.iter().any(|issue| issue.contains("clipping")));
}

#[test]
fn chunk_quality_accepts_reasonable_audio() {
    let samples: Vec<f32> = (0..48_000)
        .map(|i| ((i as f32) * 0.02).sin() * 0.12)
        .collect();

    let issues = shown(&chunk_quality_issues(
        "臣本布衣，躬耕于南阳。",
        &metrics(&samples, 24_000),
    ));

    assert!(issues.is_empty(), "{issues:?}");
}

#[test]
fn chunk_quality_flags_audio_that_is_too_short_for_text() {
    let issues = shown(&chunk_quality_issues(
        "先帝创业未半而中道崩殂。",
        &metrics(&vec![0.1; 2_400], 24_000),
    ));

    assert!(issues.iter().any(|issue| issue.contains("duration")));
}

#[test]
fn chunk_quality_ignores_punctuation_only_chunks() {
    let issues = shown(&chunk_quality_issues("！？。，", &metrics(&[], 24_000)));

    assert!(issues.is_empty(), "{issues:?}");
}

#[test]
fn spoken_char_count_ignores_pronunciation_annotations() {
    assert_eq!(spoken_char_count("盖[gai4]追先帝遗[wei4]陛下"), 7);
}

#[test]
fn least_duration_grows_with_the_text_within_bounds() {
    for chars in [0usize, 1, 4, 5, 10, 25, 62, 63, 100, 5000] {
        let expected = (chars as f32 * 0.045).clamp(0.18, 2.8);
        assert_eq!(
            f32::from_bits(min_chunk_duration_s(chars).to_bits()),
            expected,
            "{chars}"
        );
    }
}

#[test]
fn a_second_try_is_kept_by_its_issues_or_its_score() {
    assert!(matches!(judge_first_try(0), ChunkVerdict::KeepFirst));
    assert!(matches!(judge_first_try(2), ChunkVerdict::TryAgain));
    assert!(keep_second_try(0, false));
    assert!(keep_second_try(1, true));
    assert!(!keep_second_try(1, false));
}

#[test]
fn each_issue_is_told() {
    let loud = AudioQualityMetrics {
        duration_s: single(0.01),
        peak: single(1.5),
        rms: single(0.5),
        clipping_ratio: single(0.5),
        silence_ratio: single(0.0),
        dc_offset: single(-0.5),
        has_non_finite: false,
    };
    let thresholds = AudioQualityThresholds {
        max_duration_s: Some(single(0.005)),
        ..AudioQualityThresholds::default()
    };
    let issues = shown(&validate_audio_quality(&loud, &thresholds));
    assert!(issues.iter().any(|i| i.contains("duration") && i.contains("below")));
    assert!(issues.iter().any(|i| i.contains("duration") && i.contains("exceeds")));
    assert!(issues.iter().any(|i| i.contains("peak")));
    assert!(issues.iter().any(|i| i.contains("clipping")));
    assert!(issues.iter().any(|i| i.contains("dc offset")));
}

#[test]
fn scanning_counts_what_it_sees() {
    let scan = scan_samples(&singles(&[0.0, -0.75, 0.9995, f32::INFINITY, 0.00001]));
    assert_eq!(f32::from_bits(scan.peak.to_bits()), 0.9995);
    assert_eq!(scan.clipped, 1);
    assert_eq!(scan.silent, 2);
    assert!(scan.has_non_finite);
}

#[test]
fn streaming_wav_header_encodes_the_generated_audio_format() {
    let header = streaming_wav_header(32_000, 2);

    assert_eq!(header.len(), 44);
    assert_eq!(&header[0..4], b"RIFF");
    assert_eq!(&header[8..12], b"WAVE");
    assert_eq!(u16::from_le_bytes([header[22], header[23]]), 2);
    assert_eq!(
        u32::from_le_bytes([header[24], header[25], header[26], header[27]]),
        32_000
    );
    assert_eq!(
        u32::from_le_bytes([header[28], header[29], header[30], header[31]]),
        128_000
    );
    assert_eq!(u16::from_le_bytes([header[32], header[33]]), 4);
    assert_eq!(u16::from_le_bytes([header[34], header[35]]), 16);
}

#[test]
fn streams_have_no_known_length() {
    let header = streaming_wav_header(32_000, 1);
    assert_eq!(&header[4..8], &[0xFF; 4]);
    assert_eq!(&header[40..44], &[0xFF; 4]);
}

#[test]
fn a_header_that_does_not_fit_is_not_made() {
    assert!(checked_wav_header(u32::MAX, 2).is_none());
    assert_eq!(checked_wav_header(32_000, 1), Some(streaming_wav_header(32_000, 1)));
}

#[test]
fn samples_to_pcm_clamps_and_encodes_little_endian_i16() {
    let pcm = samples_to_pcm(&singles(&[-2.0, -0.5, 0.0, 0.5, 2.0]));

    let samples: Vec<i16> = pcm
        .chunks_exact(2)
        .map(|bytes| i16::from_le_bytes([bytes[0], bytes[1]]))
        .collect();
    assert_eq!(samples, vec![-32767, -16383, 0, 16383, 32767]);
}

#[test]
fn samples_become_what_float_arithmetic_makes_of_them() {
    let mut bits: u32 = 1;
    for _ in 0..200_000 {
        bits = bits.wrapping_mul(1_664_525).wrapping_add(1_013_904_223);
        let x = f32::from_bits(bits);
        let expected = (x.clamp(-1.0, 1.0) * 32767.0) as i16;
        assert_eq!(to_pcm(F32::from_bits(bits)), expected, "{x}");
    }
    assert_eq!(to_pcm(single(f32::NAN)), 0);
    assert_eq!(to_pcm(single(f32::NEG_INFINITY)), -32767);
}

#[test]
fn order_is_that_of_numbers() {
    let xs = [f32::NEG_INFINITY, -1.5, -0.0, 0.0, 1e-40, 1.5, f32::INFINITY, f32::NAN];
    for &a in &xs {
        for &b in &xs {
            assert_eq!(single(a).lt(single(b)), a < b);
            assert_eq!(
                f32::from_bits(single(a).max(single(b)).to_bits()).is_nan(),
                a.max(b).is_nan()
            );
        }
        assert_eq!(f32::from_bits(single(a).abs().to_bits()).to_bits(), a.abs().to_bits());
    }
}
