//! Whether a generated chunk is plausible, and what to do where it is not.

use crate::audio_checks::{
    quality_issues, validate_audio_quality, AudioIssue, AudioQualityMetrics, AudioQualityThresholds,
};
use crate::float_bits::{
    magnitude, magnitude_orders_amounts, negative, place_of, round_to_single, rounded, units, F32,
};
use crate::strings::{chars_of, is_space, one_of};
use vstd::arithmetic::power2::{lemma_pow2_adds, pow2};
use vstd::prelude::*;

verus! {

/// Characters that are not spoken.
pub open spec fn unspoken() -> Seq<char> {
    "\u{3000}，。、；：？！“”‘’《》（）()[]{},.;:?!\"'-_/\\"@
}

/// Whether a character is not spoken.
pub fn is_punctuation_like(c: char) -> (r: bool)
    ensures
        r == unspoken().contains(c),
{
    one_of(c, "\u{3000}，。、；：？！“”‘’《》（）()[]{},.;:?!\"'-_/\\")
}

/// The spoken characters among the first `k`, and whether the end lies inside an annotation
/// in square brackets.
pub open spec fn spoken_upto(text: Seq<char>, k: nat) -> (nat, bool)
    decreases k,
{
    if k == 0 {
        (0, false)
    } else {
        let (n, inside) = spoken_upto(text, (k - 1) as nat);
        let c = text[k - 1];
        if inside {
            (n, c != ']')
        } else if c == '[' {
            (n, true)
        } else if !is_space(c) && !unspoken().contains(c) {
            (n + 1, false)
        } else {
            (n, false)
        }
    }
}

/// How many characters of a text are spoken; annotations are not.
pub fn spoken_char_count(text: &str) -> (r: usize)
    ensures
        r == spoken_upto(text@, text@.len()).0,
{
    let chars = chars_of(text);
    let mut n: usize = 0;
    let mut inside = false;
    for i in 0..chars.len()
        invariant
            chars@ == text@,
            (n as nat, inside) == spoken_upto(text@, i as nat),
            n <= i,
    {
        let c = chars[i];
        if inside {
            if c == ']' {
                inside = false;
            }
        } else if c == '[' {
            inside = true;
        } else if !c.is_whitespace() && !is_punctuation_like(c) {
            n = n + 1;
        }
    }
    n
}

/// 0.045 in single precision is this number divided by two to the power of 28.
pub const SECONDS_PER_CHAR: u64 = 12_079_596;

/// Whether a number is the shortest plausible duration, in seconds, of `chars` spoken
/// characters: 0.045 for each, in single precision, no less than 0.18 and no more than 2.8.
pub open spec fn is_min_duration(x: F32, chars: nat) -> bool {
    if chars <= 4 {
        x.bits == 0x3E38_51EC
    } else if chars >= 63 {
        x.bits == 0x4033_3333
    } else {
        !negative(x) && units(x) == rounded(chars * SECONDS_PER_CHAR as nat) * pow2(121)
    }
}

/// There is one shortest plausible duration.
pub proof fn one_min_duration(a: F32, b: F32, chars: nat)
    requires
        is_min_duration(a, chars),
        is_min_duration(b, chars),
    ensures
        a == b,
{
    if magnitude(a) < magnitude(b) {
        magnitude_orders_amounts(a, b);
    } else if magnitude(b) < magnitude(a) {
        magnitude_orders_amounts(b, a);
    }
}

/// The shortest plausible duration of a chunk, in seconds.
pub fn min_chunk_duration_s(spoken_chars: usize) -> (r: F32)
    ensures
        is_min_duration(r, spoken_chars as nat),
{
    if spoken_chars <= 4 {
        return F32 { bits: 0x3E38_51EC };
    }
    if spoken_chars >= 63 {
        return F32 { bits: 0x4033_3333 };
    }
    let p: u64 = spoken_chars as u64 * SECONDS_PER_CHAR;
    let (places, w) = place_of(p);
    let r: u64 = round_to_single(p);
    let q: u64 = r / w;
    proof {
        vstd::arithmetic::div_mod::lemma_fundamental_div_mod(p as int, w as int);
        let floor = p / w;
        assert(w * floor == floor * w) by (nonlinear_arith);
        assert((floor + 1) * w == floor * w + w) by (nonlinear_arith);
        assert(0x80_0000 <= floor < 0x100_0000) by (nonlinear_arith)
            requires
                p == w * floor + p % w,
                0 <= p % w < w,
                w * 0x80_0000 <= p < w * 0x100_0000,
                w > 0,
        ;
        if rounded(p as nat) == floor * w {
            vstd::arithmetic::div_mod::lemma_div_multiples_vanish(floor as int, w as int);
        } else {
            vstd::arithmetic::div_mod::lemma_div_multiples_vanish((floor + 1) as int, w as int);
        }
        assert(floor * w == w * floor && (floor + 1) * w == w * (floor + 1)) by (nonlinear_arith);
        assert(q == floor || q == floor + 1);
        assert(rounded(p as nat) == q * w);
    }
    let bits: u32 = (122 + places as u32) * 0x80_0000 + (q as u32 - 0x80_0000);
    let x = F32 { bits };
    proof {
        lemma_pow2_adds(places as nat, 121);
        let pw = pow2(places as nat);
        let p121 = pow2(121);
        if q < 0x100_0000 {
            assert(x.bits as int / 0x80_0000 == 122 + places);
            assert(units(x) == q * pow2((121 + places) as nat));
            assert(q * (pw * p121) == q * w * p121) by (nonlinear_arith)
                requires
                    pw == w,
            ;
        } else {
            assert(q == 0x100_0000);
            assert(x.bits as int == (123 + places) * 0x80_0000);
            assert(x.bits as int / 0x80_0000 == 123 + places);
            assert(units(x) == 0x80_0000 * pow2((122 + places) as nat));
            vstd::arithmetic::power2::lemma_pow2_unfold((122 + places) as nat);
            assert(0x80_0000 * (2 * (pw * p121)) == q * w * p121) by (nonlinear_arith)
                requires
                    pw == w,
                    q == 0x100_0000,
            ;
        }
    }
    x
}

/// The limits for a chunk whose shortest plausible duration is given: RMS 0.00008, peak 1.2,
/// clipping 0.05, silence 0.995, DC offset 0.35.
pub open spec fn chunk_limits(min_duration_s: F32) -> AudioQualityThresholds {
    AudioQualityThresholds {
        min_duration_s,
        max_duration_s: None,
        min_rms: F32 { bits: 0x38A7_C5AC },
        max_peak: F32 { bits: 0x3F99_999A },
        max_clipping_ratio: F32 { bits: 0x3D4C_CCCD },
        max_silence_ratio: F32 { bits: 0x3F7E_B852 },
        max_abs_dc_offset: F32 { bits: 0x3EB3_3333 },
    }
}

/// The issues of the audio of a chunk; a chunk without spoken characters has none.
pub fn chunk_quality_issues(text: &str, metrics: &AudioQualityMetrics) -> (r: Vec<AudioIssue>)
    ensures
        spoken_upto(text@, text@.len()).0 == 0 ==> r@.len() == 0,
        spoken_upto(text@, text@.len()).0 > 0 ==> forall|min: F32|
            #[trigger]
            is_min_duration(min, spoken_upto(text@, text@.len()).0) ==> r@ == quality_issues(
                *metrics,
                chunk_limits(min),
            ),
{
    let n: usize = spoken_char_count(text);
    if n == 0 {
        return Vec::new();
    }
    let min = min_chunk_duration_s(n);
    let limits = AudioQualityThresholds {
        min_duration_s: min,
        max_duration_s: None,
        min_rms: F32 { bits: 0x38A7_C5AC },
        max_peak: F32 { bits: 0x3F99_999A },
        max_clipping_ratio: F32 { bits: 0x3D4C_CCCD },
        max_silence_ratio: F32 { bits: 0x3F7E_B852 },
        max_abs_dc_offset: F32 { bits: 0x3EB3_3333 },
    };
    proof {
        assert(limits == chunk_limits(min));
        assert forall|other: F32| #[trigger] is_min_duration(other, n as nat) implies other
            == min by {
            one_min_duration(other, min, n as nat);
        }
    }
    validate_audio_quality(metrics, &limits)
}

/// Which of two tries at a chunk is kept, and whether there is a second try at all.
#[derive(Debug, Clone, Copy, PartialEq, Eq, Structural)]
pub enum ChunkVerdict {
    /// The first try is good.
    KeepFirst,
    /// The first try has issues: try again with conservative options.
    TryAgain,
}

/// What becomes of the first try at a chunk.
pub fn judge_first_try(issues: usize) -> (r: ChunkVerdict)
    ensures
        r == if issues == 0 {
            ChunkVerdict::KeepFirst
        } else {
            ChunkVerdict::TryAgain
        },
{
    if issues == 0 {
        ChunkVerdict::KeepFirst
    } else {
        ChunkVerdict::TryAgain
    }
}

/// Whether the second try at a chunk is kept: it has no issues, or its score is better.
pub fn keep_second_try(retry_issues: usize, retry_scores_better: bool) -> (r: bool)
    ensures
        r == (retry_issues == 0 || retry_scores_better),
{
    retry_issues == 0 || retry_scores_better
}

/// The characters that are not spoken: the wide space, Chinese and ASCII marks, quotes, brackets,
/// hyphens, underscores and slashes.
pub proof fn marks_are_not_spoken(c: char)
    ensures
        unspoken().contains(c) <==> {
            ||| c == '\u{3000}' || c == '，' || c == '。' || c == '、' || c == '；' || c == '：'
            ||| c == '？' || c == '！' || c == '“' || c == '”' || c == '‘' || c == '’'
            ||| c == '《' || c == '》' || c == '（' || c == '）' || c == '(' || c == ')'
            ||| c == '[' || c == ']' || c == '{' || c == '}' || c == ',' || c == '.'
            ||| c == ';' || c == ':' || c == '?' || c == '!' || c == '"' || c == '\''
            ||| c == '-' || c == '_' || c == '/' || c == '\\'
        },
{
    reveal_strlit("\u{3000}，。、；：？！“”‘’《》（）()[]{},.;:?!\"'-_/\\");
    let s = unspoken();
    assert(s.len() == 34);
    assert(s[0] == '\u{3000}' && s[1] == '，' && s[2] == '。' && s[3] == '、' && s[4] == '；');
    assert(s[5] == '：' && s[6] == '？' && s[7] == '！' && s[8] == '“' && s[9] == '”');
    assert(s[10] == '‘' && s[11] == '’' && s[12] == '《' && s[13] == '》' && s[14] == '（');
    assert(s[15] == '）' && s[16] == '(' && s[17] == ')' && s[18] == '[' && s[19] == ']');
    assert(s[20] == '{' && s[21] == '}' && s[22] == ',' && s[23] == '.' && s[24] == ';');
    assert(s[25] == ':' && s[26] == '?' && s[27] == '!' && s[28] == '"' && s[29] == '\'');
    assert(s[30] == '-' && s[31] == '_' && s[32] == '/' && s[33] == '\\');
}

proof fn lemma_spoken_prefix(a: Seq<char>, b: Seq<char>, k: nat)
    requires
        k <= a.len(),
    ensures
        spoken_upto(a + b, k) == spoken_upto(a, k),
    decreases k,
{
    if k > 0 {
        lemma_spoken_prefix(a, b, (k - 1) as nat);
    }
}

/// Spoken characters are counted part by part, where the text is not cut inside brackets; a
/// single one counts where it is neither white space nor a mark.
pub proof fn spoken_characters_add_up(a: Seq<char>, b: Seq<char>, k: nat)
    requires
        !spoken_upto(a, a.len()).1,
        k <= b.len(),
    ensures
        spoken_upto(a + b, a.len() + k).0 == spoken_upto(a, a.len()).0 + spoken_upto(b, k).0,
        spoken_upto(a + b, a.len() + k).1 == spoken_upto(b, k).1,
    decreases k,
{
    lemma_spoken_prefix(a, b, a.len());
    if k > 0 {
        spoken_characters_add_up(a, b, (k - 1) as nat);
        assert((a + b)[a.len() + k - 1] == b[k - 1]);
    }
}

/// A character counts where it is neither white space nor a mark.
pub proof fn a_spoken_character_counts(c: char)
    ensures
        spoken_upto(seq![c], 1).0 == if is_space(c) || unspoken().contains(c) {
            0nat
        } else {
            1nat
        },
        spoken_upto(seq![c], 1).1 == (c == '['),
{
    marks_are_not_spoken(c);
    assert(spoken_upto(seq![c], 0) == (0nat, false));
}

/// Nothing in square brackets is spoken.
pub proof fn brackets_are_not_spoken(inner: Seq<char>)
    requires
        !inner.contains(']'),
    ensures
        spoken_upto(seq!['['] + inner + seq![']'], inner.len() + 2) == (0nat, false),
{
    let s = seq!['['] + inner + seq![']'];
    lemma_inside(inner, inner.len());
    assert(s[inner.len() as int + 1] == ']');
}

proof fn lemma_inside(inner: Seq<char>, k: nat)
    requires
        !inner.contains(']'),
        k <= inner.len(),
    ensures
        spoken_upto(seq!['['] + inner + seq![']'], k + 1) == (0nat, true),
    decreases k,
{
    let s = seq!['['] + inner + seq![']'];
    if k == 0 {
        assert(spoken_upto(s, 0) == (0nat, false));
        assert(s[0] == '[');
    } else {
        lemma_inside(inner, (k - 1) as nat);
        assert(s[k as int] == inner[k - 1]);
        assert(inner.contains(inner[k - 1]));
    }
}

} // verus!
