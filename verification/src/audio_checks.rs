//! Objective sanity checks for generated audio.

use crate::float_bits::{is_finite, less, magnitude, F32};
use vstd::prelude::*;

verus! {

/// Amount from which a sample counts as clipped: 0.999.
pub const CLIPPED: u32 = 0x3F7F_BE77;

/// Amount below which a sample counts as silent: 0.0001.
pub const SILENT: u32 = 0x38D1_B717;

/// What a pass over the samples finds, apart from sums.
#[derive(Debug, Clone, Copy, PartialEq, Eq, Structural)]
pub struct SampleScan {
    /// The greatest amount of a finite sample.
    pub peak: F32,
    /// How many finite samples are clipped.
    pub clipped: usize,
    /// How many finite samples are silent.
    pub silent: usize,
    /// Whether a sample is infinite or no number.
    pub has_non_finite: bool,
}

/// The amount of a number.
pub open spec fn amount(x: F32) -> F32 {
    F32 { bits: magnitude(x) as u32 }
}

/// Whether a sample is finite and clipped.
pub open spec fn is_clipped(x: F32) -> bool {
    is_finite(x) && magnitude(x) >= CLIPPED
}

/// Whether a sample is finite and silent.
pub open spec fn is_silent(x: F32) -> bool {
    is_finite(x) && magnitude(x) < SILENT
}

/// How many of the samples satisfy `p`.
pub open spec fn how_many(samples: Seq<F32>, p: spec_fn(F32) -> bool) -> nat
    decreases samples.len(),
{
    if samples.len() == 0 {
        0
    } else {
        how_many(samples.drop_last(), p) + (if p(samples.last()) {
            1nat
        } else {
            0nat
        })
    }
}

proof fn lemma_how_many(samples: Seq<F32>, p: spec_fn(F32) -> bool)
    ensures
        how_many(samples, p) <= samples.len(),
    decreases samples.len(),
{
    if samples.len() > 0 {
        lemma_how_many(samples.drop_last(), p);
    }
}

/// Whether `peak` is the greatest amount of a finite sample, zero where there is none.
pub open spec fn is_peak(samples: Seq<F32>, peak: F32) -> bool {
    &&& forall|i: int|
        0 <= i < samples.len() && is_finite(#[trigger] samples[i]) ==> magnitude(samples[i])
            <= peak.bits
    &&& peak.bits == 0 || exists|i: int|
        0 <= i < samples.len() && is_finite(#[trigger] samples[i]) && magnitude(samples[i])
            == peak.bits
    &&& is_finite(peak)
    &&& peak.bits < 0x8000_0000
}

/// Scans samples for their peak, clipping, silence and values that are not finite.
pub fn scan_samples(samples: &[F32]) -> (r: SampleScan)
    ensures
        is_peak(samples@, r.peak),
        r.clipped == how_many(samples@, |x: F32| is_clipped(x)),
        r.silent == how_many(samples@, |x: F32| is_silent(x)),
        r.has_non_finite == exists|i: int|
            0 <= i < samples@.len() && !is_finite(#[trigger] samples@[i]),
{
    let mut r = SampleScan {
        peak: F32 { bits: 0 },
        clipped: 0,
        silent: 0,
        has_non_finite: false,
    };
    for i in 0..samples.len()
        invariant
            is_peak(samples@.take(i as int), r.peak),
            r.clipped == how_many(samples@.take(i as int), |x: F32| is_clipped(x)),
            r.silent == how_many(samples@.take(i as int), |x: F32| is_silent(x)),
            r.clipped <= i,
            r.silent <= i,
            r.has_non_finite == exists|k: int| 0 <= k < i && !is_finite(#[trigger] samples@[k]),
    {
        let ghost done = samples@.take(i as int);
        let ghost next = samples@.take(i + 1);
        let ghost before = r.peak;
        proof {
            assert(next.drop_last() =~= done);
            assert(next.last() == samples@[i as int]);
            assert forall|k: int| 0 <= k < done.len() implies #[trigger] done[k] == next[k] by {}
        }
        let sample = samples[i];
        if !sample.finite() {
            r.has_non_finite = true;
            assert(is_peak(next, r.peak)) by {
                assert forall|k: int| 0 <= k < next.len() && is_finite(#[trigger] next[k]) implies
                    magnitude(next[k]) <= r.peak.bits by {
                    assert(next[k] == done[k]);
                }
                if r.peak.bits != 0 {
                    let k = choose|k: int|
                        0 <= k < done.len() && is_finite(#[trigger] done[k]) && magnitude(done[k])
                            == r.peak.bits;
                    assert(next[k] == done[k]);
                }
            }
        } else {
            let a = sample.abs();
            if a.bits > r.peak.bits {
                r.peak = a;
            }
            if a.bits >= CLIPPED {
                r.clipped = r.clipped + 1;
            }
            if a.bits < SILENT {
                r.silent = r.silent + 1;
            }
            assert(is_peak(next, r.peak)) by {
                assert forall|k: int| 0 <= k < next.len() && is_finite(#[trigger] next[k]) implies
                    magnitude(next[k]) <= r.peak.bits by {
                    if k < i {
                        assert(next[k] == done[k]);
                    }
                }
                if r.peak.bits != 0 {
                    if a.bits > before.bits {
                        assert(magnitude(next[i as int]) == r.peak.bits);
                    } else {
                        let k = choose|k: int|
                            0 <= k < done.len() && is_finite(#[trigger] done[k]) && magnitude(
                                done[k],
                            ) == r.peak.bits;
                        assert(next[k] == done[k]);
                    }
                }
            }
        }
    }
    assert(samples@.take(samples@.len() as int) =~= samples@);
    r
}

/// Measurements of generated audio.
#[derive(Debug, Clone, Copy, PartialEq, Eq, Structural)]
pub struct AudioQualityMetrics {
    pub duration_s: F32,
    pub peak: F32,
    pub rms: F32,
    pub clipping_ratio: F32,
    pub silence_ratio: F32,
    pub dc_offset: F32,
    pub has_non_finite: bool,
}

/// Limits of acceptable audio.
#[derive(Debug, Clone, Copy, PartialEq, Eq, Structural)]
pub struct AudioQualityThresholds {
    pub min_duration_s: F32,
    pub max_duration_s: Option<F32>,
    pub min_rms: F32,
    pub max_peak: F32,
    pub max_clipping_ratio: F32,
    pub max_silence_ratio: F32,
    pub max_abs_dc_offset: F32,
}

impl Default for AudioQualityThresholds {
    /// 0.1 s, RMS 0.0001, peak 1.2, clipping 0.01, silence 0.98, DC offset 0.2.
    fn default() -> (r: Self)
        ensures
            r == (AudioQualityThresholds {
                min_duration_s: F32 { bits: 0x3DCC_CCCD },
                max_duration_s: None,
                min_rms: F32 { bits: 0x38D1_B717 },
                max_peak: F32 { bits: 0x3F99_999A },
                max_clipping_ratio: F32 { bits: 0x3C23_D70A },
                max_silence_ratio: F32 { bits: 0x3F7A_E148 },
                max_abs_dc_offset: F32 { bits: 0x3E4C_CCCD },
            }),
    {
        Self {
            min_duration_s: F32 { bits: 0x3DCC_CCCD },
            max_duration_s: None,
            min_rms: F32 { bits: 0x38D1_B717 },
            max_peak: F32 { bits: 0x3F99_999A },
            max_clipping_ratio: F32 { bits: 0x3C23_D70A },
            max_silence_ratio: F32 { bits: 0x3F7A_E148 },
            max_abs_dc_offset: F32 { bits: 0x3E4C_CCCD },
        }
    }
}

/// What is wrong with generated audio: a measurement and the limit that it breaks.
#[derive(Debug, Clone, Copy, PartialEq, Eq, Structural)]
pub enum AudioIssue {
    NonFinite,
    TooShort(F32, F32),
    TooLong(F32, F32),
    TooQuiet(F32, F32),
    PeakTooHigh(F32, F32),
    TooMuchClipping(F32, F32),
    TooMuchSilence(F32, F32),
    DcOffset(F32, F32),
}

/// The issue, where there is one.
pub open spec fn issue_if(found: bool, issue: AudioIssue) -> Seq<AudioIssue> {
    if found {
        seq![issue]
    } else {
        Seq::empty()
    }
}

/// The issues of measurements against limits, in a fixed order.
pub open spec fn quality_issues(
    m: AudioQualityMetrics,
    t: AudioQualityThresholds,
) -> Seq<AudioIssue> {
    issue_if(m.has_non_finite, AudioIssue::NonFinite) + issue_if(
        less(m.duration_s, t.min_duration_s),
        AudioIssue::TooShort(m.duration_s, t.min_duration_s),
    ) + (match t.max_duration_s {
        Some(max) => issue_if(less(max, m.duration_s), AudioIssue::TooLong(m.duration_s, max)),
        None => Seq::empty(),
    }) + issue_if(less(m.rms, t.min_rms), AudioIssue::TooQuiet(m.rms, t.min_rms)) + issue_if(
        less(t.max_peak, m.peak),
        AudioIssue::PeakTooHigh(m.peak, t.max_peak),
    ) + issue_if(
        less(t.max_clipping_ratio, m.clipping_ratio),
        AudioIssue::TooMuchClipping(m.clipping_ratio, t.max_clipping_ratio),
    ) + issue_if(
        less(t.max_silence_ratio, m.silence_ratio),
        AudioIssue::TooMuchSilence(m.silence_ratio, t.max_silence_ratio),
    ) + issue_if(
        less(t.max_abs_dc_offset, amount(m.dc_offset)),
        AudioIssue::DcOffset(m.dc_offset, t.max_abs_dc_offset),
    )
}

/// Adds an issue, where there is one.
fn push_if(issues: &mut Vec<AudioIssue>, found: bool, issue: AudioIssue)
    ensures
        final(issues)@ == old(issues)@ + issue_if(found, issue),
{
    if found {
        issues.push(issue);
    }
    assert(issues@ =~= old(issues)@ + issue_if(found, issue));
}

/// Checks measurements against limits.
pub fn validate_audio_quality(
    metrics: &AudioQualityMetrics,
    thresholds: &AudioQualityThresholds,
) -> (r: Vec<AudioIssue>)
    ensures
        r@ == quality_issues(*metrics, *thresholds),
{
    let m = *metrics;
    let t = *thresholds;
    let mut issues: Vec<AudioIssue> = Vec::new();
    push_if(&mut issues, m.has_non_finite, AudioIssue::NonFinite);
    assert(issues@ =~= issue_if(m.has_non_finite, AudioIssue::NonFinite));
    push_if(
        &mut issues,
        m.duration_s.lt(t.min_duration_s),
        AudioIssue::TooShort(m.duration_s, t.min_duration_s),
    );
    let ghost before = issues@;
    match t.max_duration_s {
        Some(max) => push_if(
            &mut issues,
            max.lt(m.duration_s),
            AudioIssue::TooLong(m.duration_s, max),
        ),
        None => {
            assert(issues@ =~= before + Seq::<AudioIssue>::empty());
        },
    }
    push_if(&mut issues, m.rms.lt(t.min_rms), AudioIssue::TooQuiet(m.rms, t.min_rms));
    push_if(&mut issues, t.max_peak.lt(m.peak), AudioIssue::PeakTooHigh(m.peak, t.max_peak));
    push_if(
        &mut issues,
        t.max_clipping_ratio.lt(m.clipping_ratio),
        AudioIssue::TooMuchClipping(m.clipping_ratio, t.max_clipping_ratio),
    );
    push_if(
        &mut issues,
        t.max_silence_ratio.lt(m.silence_ratio),
        AudioIssue::TooMuchSilence(m.silence_ratio, t.max_silence_ratio),
    );
    push_if(
        &mut issues,
        t.max_abs_dc_offset.lt(m.dc_offset.abs()),
        AudioIssue::DcOffset(m.dc_offset, t.max_abs_dc_offset),
    );
    issues
}

/// The text around the measurement and the limit of an issue: before the first, between
/// them, and behind the second.
pub open spec fn issue_words(issue: AudioIssue) -> (Seq<char>, Seq<char>, Seq<char>) {
    match issue {
        AudioIssue::NonFinite => ("audio contains NaN or infinite samples"@, ""@, ""@),
        AudioIssue::TooShort(_, _) => ("duration "@, "s is below minimum "@, "s"@),
        AudioIssue::TooLong(_, _) => ("duration "@, "s exceeds maximum "@, "s"@),
        AudioIssue::TooQuiet(_, _) => ("rms "@, " is below minimum "@, ""@),
        AudioIssue::PeakTooHigh(_, _) => ("peak "@, " exceeds maximum "@, ""@),
        AudioIssue::TooMuchClipping(_, _) => ("clipping ratio "@, " exceeds maximum "@, ""@),
        AudioIssue::TooMuchSilence(_, _) => ("silence ratio "@, " exceeds maximum "@, ""@),
        AudioIssue::DcOffset(_, _) => ("dc offset "@, " exceeds maximum absolute "@, ""@),
    }
}

impl AudioIssue {
    /// The message of the issue, its measurement and its limit written as given.
    pub fn message(&self, value: &str, limit: &str) -> (r: String)
        ensures
            r@ == match *self {
                AudioIssue::NonFinite => issue_words(*self).0,
                _ => issue_words(*self).0 + value@ + issue_words(*self).1 + limit@ + issue_words(
                    *self,
                ).2,
            },
    {
        let (before, between, behind) = match self {
            AudioIssue::NonFinite => {
                return "audio contains NaN or infinite samples".to_owned();
            },
            AudioIssue::TooShort(_, _) => ("duration ", "s is below minimum ", "s"),
            AudioIssue::TooLong(_, _) => ("duration ", "s exceeds maximum ", "s"),
            AudioIssue::TooQuiet(_, _) => ("rms ", " is below minimum ", ""),
            AudioIssue::PeakTooHigh(_, _) => ("peak ", " exceeds maximum ", ""),
            AudioIssue::TooMuchClipping(_, _) => ("clipping ratio ", " exceeds maximum ", ""),
            AudioIssue::TooMuchSilence(_, _) => ("silence ratio ", " exceeds maximum ", ""),
            AudioIssue::DcOffset(_, _) => ("dc offset ", " exceeds maximum absolute ", ""),
        };
        let mut r = before.to_owned();
        r.push_str(value);
        r.push_str(between);
        r.push_str(limit);
        r.push_str(behind);
        r
    }
}

/// Audio within all limits has no issue.
pub proof fn good_audio_has_no_issue(m: AudioQualityMetrics, t: AudioQualityThresholds)
    requires
        !m.has_non_finite,
        !less(m.duration_s, t.min_duration_s),
        t.max_duration_s matches Some(max) ==> !less(max, m.duration_s),
        !less(m.rms, t.min_rms),
        !less(t.max_peak, m.peak),
        !less(t.max_clipping_ratio, m.clipping_ratio),
        !less(t.max_silence_ratio, m.silence_ratio),
        !less(t.max_abs_dc_offset, amount(m.dc_offset)),
    ensures
        quality_issues(m, t).len() == 0,
{
}

proof fn lemma_add_contains(a: Seq<AudioIssue>, b: Seq<AudioIssue>, x: AudioIssue)
    ensures
        (a + b).contains(x) <==> a.contains(x) || b.contains(x),
{
    if a.contains(x) {
        let i = a.index_of(x);
        assert((a + b)[i] == x);
    }
    if b.contains(x) {
        let i = b.index_of(x);
        assert((a + b)[a.len() + i] == x);
    }
    if (a + b).contains(x) {
        let i = (a + b).index_of(x);
        if i < a.len() {
            assert(a[i] == x);
        } else {
            assert(b[i - a.len()] == x);
        }
    }
}

proof fn lemma_issue_if(found: bool, issue: AudioIssue, x: AudioIssue)
    ensures
        issue_if(found, issue).contains(x) <==> found && x == issue,
{
    if found {
        assert(issue_if(found, issue)[0] == issue);
    }
}

/// An issue is reported if and only if its measurement breaks its limit: too short, too long, too
/// quiet, too loud, too much clipping, too much silence, a mean too far from zero on either side,
/// or a sample that is no finite number.
pub proof fn every_broken_limit_is_reported(
    m: AudioQualityMetrics,
    t: AudioQualityThresholds,
    x: AudioIssue,
)
    ensures
        quality_issues(m, t).contains(x) <==> match x {
            AudioIssue::NonFinite => m.has_non_finite,
            AudioIssue::TooShort(value, limit) => value == m.duration_s && limit
                == t.min_duration_s && less(value, limit),
            AudioIssue::TooLong(value, limit) => value == m.duration_s && t.max_duration_s == Some(
                limit,
            ) && less(limit, value),
            AudioIssue::TooQuiet(value, limit) => value == m.rms && limit == t.min_rms && less(
                value,
                limit,
            ),
            AudioIssue::PeakTooHigh(value, limit) => value == m.peak && limit == t.max_peak && less(
                limit,
                value,
            ),
            AudioIssue::TooMuchClipping(value, limit) => value == m.clipping_ratio && limit
                == t.max_clipping_ratio && less(limit, value),
            AudioIssue::TooMuchSilence(value, limit) => value == m.silence_ratio && limit
                == t.max_silence_ratio && less(limit, value),
            AudioIssue::DcOffset(value, limit) => value == m.dc_offset && limit
                == t.max_abs_dc_offset && less(limit, amount(value)),
        },
        quality_issues(m, t).len() <= 8,
{
    let a = issue_if(m.has_non_finite, AudioIssue::NonFinite);
    let b = issue_if(
        less(m.duration_s, t.min_duration_s),
        AudioIssue::TooShort(m.duration_s, t.min_duration_s),
    );
    let c = match t.max_duration_s {
        Some(max) => issue_if(less(max, m.duration_s), AudioIssue::TooLong(m.duration_s, max)),
        None => Seq::empty(),
    };
    let d = issue_if(less(m.rms, t.min_rms), AudioIssue::TooQuiet(m.rms, t.min_rms));
    let e = issue_if(less(t.max_peak, m.peak), AudioIssue::PeakTooHigh(m.peak, t.max_peak));
    let f = issue_if(
        less(t.max_clipping_ratio, m.clipping_ratio),
        AudioIssue::TooMuchClipping(m.clipping_ratio, t.max_clipping_ratio),
    );
    let g = issue_if(
        less(t.max_silence_ratio, m.silence_ratio),
        AudioIssue::TooMuchSilence(m.silence_ratio, t.max_silence_ratio),
    );
    let h = issue_if(
        less(t.max_abs_dc_offset, amount(m.dc_offset)),
        AudioIssue::DcOffset(m.dc_offset, t.max_abs_dc_offset),
    );
    lemma_issue_if(m.has_non_finite, AudioIssue::NonFinite, x);
    lemma_issue_if(
        less(m.duration_s, t.min_duration_s),
        AudioIssue::TooShort(m.duration_s, t.min_duration_s),
        x,
    );
    match t.max_duration_s {
        Some(max) => lemma_issue_if(
            less(max, m.duration_s),
            AudioIssue::TooLong(m.duration_s, max),
            x,
        ),
        None => {
            assert(!c.contains(x));
        },
    }
    lemma_issue_if(less(m.rms, t.min_rms), AudioIssue::TooQuiet(m.rms, t.min_rms), x);
    lemma_issue_if(less(t.max_peak, m.peak), AudioIssue::PeakTooHigh(m.peak, t.max_peak), x);
    lemma_issue_if(
        less(t.max_clipping_ratio, m.clipping_ratio),
        AudioIssue::TooMuchClipping(m.clipping_ratio, t.max_clipping_ratio),
        x,
    );
    lemma_issue_if(
        less(t.max_silence_ratio, m.silence_ratio),
        AudioIssue::TooMuchSilence(m.silence_ratio, t.max_silence_ratio),
        x,
    );
    lemma_issue_if(
        less(t.max_abs_dc_offset, amount(m.dc_offset)),
        AudioIssue::DcOffset(m.dc_offset, t.max_abs_dc_offset),
        x,
    );
    lemma_add_contains(a, b, x);
    lemma_add_contains(a + b, c, x);
    lemma_add_contains(a + b + c, d, x);
    lemma_add_contains(a + b + c + d, e, x);
    lemma_add_contains(a + b + c + d + e, f, x);
    lemma_add_contains(a + b + c + d + e + f, g, x);
    lemma_add_contains(a + b + c + d + e + f + g, h, x);
    assert(quality_issues(m, t) == a + b + c + d + e + f + g + h);
}

/// Samples are counted part by part, and a sample is clipped from 0.999 on and silent below
/// 0.0001, whatever its sign, where it is finite.
pub proof fn samples_are_counted_one_by_one(
    a: Seq<F32>,
    b: Seq<F32>,
    x: F32,
    p: spec_fn(F32) -> bool,
)
    ensures
        how_many(a + b, p) == how_many(a, p) + how_many(b, p),
        how_many(seq![x], p) == if p(x) {
            1nat
        } else {
            0nat
        },
        is_clipped(x) <==> 0x3F7F_BE77 <= magnitude(x) < 0x7F80_0000,
        is_silent(x) <==> magnitude(x) < 0x38D1_B717,
    decreases b.len(),
{
    assert(seq![x].drop_last().len() == 0);
    assert(how_many(seq![x].drop_last(), p) == 0);
    if b.len() == 0 {
        assert(a + b =~= a);
    } else {
        samples_are_counted_one_by_one(a, b.drop_last(), x, p);
        assert((a + b).drop_last() =~= a + b.drop_last());
        assert((a + b).last() == b.last());
    }
}

} // verus!
