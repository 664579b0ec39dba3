//! Audio bytes of responses.

use crate::float_bits::{pcm_sample, samples_stay_in_range, to_pcm, F32};
use vstd::prelude::*;

verus! {

/// A 16-bit number in bytes, the low one first.
pub open spec fn le16(n: nat) -> Seq<u8> {
    seq![(n % 256) as u8, (n / 256 % 256) as u8]
}

/// A 32-bit number in bytes, the low ones first.
pub open spec fn le32(n: nat) -> Seq<u8> {
    seq![
        (n % 256) as u8,
        (n / 256 % 256) as u8,
        (n / 65536 % 256) as u8,
        (n / 16777216 % 256) as u8,
    ]
}

/// Adds a 16-bit number.
fn push_le16(out: &mut Vec<u8>, n: u16)
    ensures
        final(out)@ == old(out)@ + le16(n as nat),
{
    out.push((n % 256) as u8);
    out.push((n / 256 % 256) as u8);
    assert(out@ =~= old(out)@ + le16(n as nat));
}

/// Adds a 32-bit number.
fn push_le32(out: &mut Vec<u8>, n: u32)
    ensures
        final(out)@ == old(out)@ + le32(n as nat),
{
    out.push((n % 256) as u8);
    out.push((n / 256 % 256) as u8);
    out.push((n / 65536 % 256) as u8);
    out.push((n / 16777216 % 256) as u8);
    assert(out@ =~= old(out)@ + le32(n as nat));
}

/// Adds four bytes.
fn push_tag(out: &mut Vec<u8>, a: u8, b: u8, c: u8, d: u8)
    ensures
        final(out)@ == old(out)@ + seq![a, b, c, d],
{
    out.push(a);
    out.push(b);
    out.push(c);
    out.push(d);
    assert(out@ =~= old(out)@ + seq![a, b, c, d]);
}

/// The tag `RIFF`.
pub open spec fn riff_tag() -> Seq<u8> {
    seq![0x52u8, 0x49, 0x46, 0x46]
}

/// The tag `WAVE`.
pub open spec fn wave_tag() -> Seq<u8> {
    seq![0x57u8, 0x41, 0x56, 0x45]
}

/// The tag `fmt` and a space.
pub open spec fn fmt_tag() -> Seq<u8> {
    seq![0x66u8, 0x6D, 0x74, 0x20]
}

/// The tag `data`.
pub open spec fn data_tag() -> Seq<u8> {
    seq![0x64u8, 0x61, 0x74, 0x61]
}

/// The head of a WAV file of unknown length, whose sizes are written as the greatest number:
/// 16-bit PCM with the given rate and channels.
pub open spec fn wav_head(sample_rate: nat, channels: nat) -> Seq<u8> {
    riff_tag() + le32(0xFFFF_FFFF) + wave_tag() + fmt_tag() + le32(16) + le16(1) + le16(channels)
        + le32(sample_rate) + le32(sample_rate * channels * 2) + le16(channels * 2) + le16(16)
        + data_tag() + le32(0xFFFF_FFFF)
}

/// The head of a WAV stream of unknown length.
pub fn streaming_wav_header(sample_rate: u32, channels: u16) -> (r: Vec<u8>)
    requires
        sample_rate * channels * 16 <= u32::MAX,
        channels * 16 <= u16::MAX,
    ensures
        r@ == wav_head(sample_rate as nat, channels as nat),
        r@.len() == 44,
{
    let bits: u16 = 16;
    assert(sample_rate * channels <= sample_rate * channels * 16) by (nonlinear_arith);
    let byte_rate: u32 = sample_rate * channels as u32 * bits as u32 / 8;
    let block_align: u16 = channels * bits / 8;
    let mut h: Vec<u8> = Vec::new();
    push_tag(&mut h, 0x52, 0x49, 0x46, 0x46);
    assert(h@ =~= riff_tag());
    push_le32(&mut h, 0xFFFF_FFFF);
    push_tag(&mut h, 0x57, 0x41, 0x56, 0x45);
    push_tag(&mut h, 0x66, 0x6D, 0x74, 0x20);
    push_le32(&mut h, 16);
    push_le16(&mut h, 1);
    push_le16(&mut h, channels);
    push_le32(&mut h, sample_rate);
    push_le32(&mut h, byte_rate);
    push_le16(&mut h, block_align);
    push_le16(&mut h, bits);
    push_tag(&mut h, 0x64, 0x61, 0x74, 0x61);
    push_le32(&mut h, 0xFFFF_FFFF);
    assert(h@ =~= wav_head(sample_rate as nat, channels as nat));
    h
}

/// The head of a WAV stream, where the format's fields can hold its rates.
pub fn checked_wav_header(sample_rate: u32, channels: u16) -> (r: Option<Vec<u8>>)
    ensures
        match r {
            Some(h) => h@ == wav_head(sample_rate as nat, channels as nat),
            None => sample_rate * channels * 16 > u32::MAX || channels * 16 > u16::MAX,
        },
{
    if channels > 4095 {
        return None;
    }
    let rate: u64 = sample_rate as u64;
    let n: u64 = channels as u64;
    assert(rate * n <= 0xFFFF_FFFF * 4095) by (nonlinear_arith)
        requires
            rate <= 0xFFFF_FFFF,
            n <= 4095,
    ;
    if rate * n > 0xFFFF_FFFF / 16 {
        return None;
    }
    Some(streaming_wav_header(sample_rate, channels))
}

/// A 16-bit sample in bytes, the low one first.
pub open spec fn sample_bytes(v: int) -> Seq<u8> {
    le16(
        if v < 0 {
            (65536 + v) as nat
        } else {
            v as nat
        },
    )
}

/// The samples in bytes.
pub open spec fn pcm_bytes(samples: Seq<F32>) -> Seq<u8>
    decreases samples.len(),
{
    if samples.len() == 0 {
        Seq::empty()
    } else {
        pcm_bytes(samples.drop_last()) + sample_bytes(pcm_sample(samples.last()))
    }
}

/// Encodes samples as 16-bit PCM bytes.
pub fn samples_to_pcm(samples: &[F32]) -> (r: Vec<u8>)
    ensures
        r@ == pcm_bytes(samples@),
{
    let mut out: Vec<u8> = Vec::new();
    for i in 0..samples.len()
        invariant
            out@ == pcm_bytes(samples@.take(i as int)),
    {
        assert(samples@.take(i + 1).drop_last() =~= samples@.take(i as int));
        let v: i16 = to_pcm(samples[i]);
        let w: u16 = if v < 0 {
            (65536 + v as i32) as u16
        } else {
            v as u16
        };
        push_le16(&mut out, w);
    }
    assert(samples@.take(samples@.len() as int) =~= samples@);
    out
}

/// Every sample takes two bytes.
pub proof fn pcm_takes_two_bytes_each(samples: Seq<F32>)
    ensures
        pcm_bytes(samples).len() == 2 * samples.len(),
    decreases samples.len(),
{
    if samples.len() > 0 {
        pcm_takes_two_bytes_each(samples.drop_last());
    }
}

/// The number that two bytes stand for, the low one first and the upper half negative.
pub open spec fn signed(low: u8, high: u8) -> int {
    if high < 128 {
        low + 256 * high
    } else {
        low + 256 * high - 65536
    }
}

/// Each sample stands in two bytes at its place, from which its number can be read back.
pub proof fn samples_stand_in_their_bytes(samples: Seq<F32>, i: int)
    requires
        0 <= i < samples.len(),
    ensures
        pcm_bytes(samples).len() == 2 * samples.len(),
        signed(pcm_bytes(samples)[2 * i], pcm_bytes(samples)[2 * i + 1]) == pcm_sample(samples[i]),
    decreases samples.len(),
{
    let before = samples.drop_last();
    lemma_pcm_len(samples);
    lemma_pcm_len(before);
    samples_stay_in_range(samples.last());
    let last = sample_bytes(pcm_sample(samples.last()));
    assert(pcm_bytes(samples) == pcm_bytes(before) + last);
    if i < before.len() {
        samples_stand_in_their_bytes(before, i);
    } else {
        assert(pcm_bytes(samples)[2 * i] == last[0]);
        assert(pcm_bytes(samples)[2 * i + 1] == last[1]);
    }
}

proof fn lemma_pcm_len(samples: Seq<F32>)
    ensures
        pcm_bytes(samples).len() == 2 * samples.len(),
    decreases samples.len(),
{
    if samples.len() > 0 {
        lemma_pcm_len(samples.drop_last());
    }
}

/// Audio sent piece by piece is the audio sent at once.
pub proof fn pieces_of_audio_add_up(a: Seq<F32>, b: Seq<F32>)
    ensures
        pcm_bytes(a + b) == pcm_bytes(a) + pcm_bytes(b),
    decreases b.len(),
{
    if b.len() == 0 {
        assert(a + b =~= a);
        assert(pcm_bytes(a) + pcm_bytes(b) =~= pcm_bytes(a));
    } else {
        pieces_of_audio_add_up(a, b.drop_last());
        assert((a + b).drop_last() =~= a + b.drop_last());
        assert((a + b).last() == b.last());
        assert(pcm_bytes(a + b) =~= pcm_bytes(a) + pcm_bytes(b));
    }
}

/// The number that two bytes at a place stand for.
pub open spec fn two_at(bytes: Seq<u8>, i: int) -> int {
    bytes[i] + 256 * bytes[i + 1]
}

/// The number that four bytes at a place stand for.
pub open spec fn four_at(bytes: Seq<u8>, i: int) -> int {
    two_at(bytes, i) + 65536 * two_at(bytes, i + 2)
}

/// The head of a WAV stream names its format: the tags at their places, PCM in one chunk of 16
/// bytes, the channels, the rate, the bytes of a second and of a frame, 16 bits for a sample;
/// and its sizes are the greatest that can be written.
pub proof fn wav_head_names_its_format(sample_rate: nat, channels: nat)
    requires
        channels <= 4095,
        sample_rate * channels * 16 <= u32::MAX,
        sample_rate <= u32::MAX,
    ensures
        wav_head(sample_rate, channels).len() == 44,
        wav_head(sample_rate, channels).subrange(0, 4) == seq![82u8, 73, 70, 70],
        four_at(wav_head(sample_rate, channels), 4) == u32::MAX,
        wav_head(sample_rate, channels).subrange(8, 16) == seq![
            87u8,
            65,
            86,
            69,
            102,
            109,
            116,
            32,
        ],
        four_at(wav_head(sample_rate, channels), 16) == 16,
        two_at(wav_head(sample_rate, channels), 20) == 1,
        two_at(wav_head(sample_rate, channels), 22) == channels,
        four_at(wav_head(sample_rate, channels), 24) == sample_rate,
        four_at(wav_head(sample_rate, channels), 28) == sample_rate * channels * 2,
        two_at(wav_head(sample_rate, channels), 32) == channels * 2,
        two_at(wav_head(sample_rate, channels), 34) == 16,
        wav_head(sample_rate, channels).subrange(36, 40) == seq![100u8, 97, 116, 97],
        four_at(wav_head(sample_rate, channels), 40) == u32::MAX,
{
    let h = wav_head(sample_rate, channels);
    let bytes = sample_rate * channels * 2;
    assert(bytes <= u32::MAX);
    assert(h.subrange(0, 4) =~= seq![82u8, 73, 70, 70]);
    assert(h.subrange(8, 16) =~= seq![87u8, 65, 86, 69, 102, 109, 116, 32]);
    assert(h.subrange(36, 40) =~= seq![100u8, 97, 116, 97]);
    lemma_le32(sample_rate);
    lemma_le32(bytes);
    assert(four_at(h, 24) == four_at(le32(sample_rate), 0));
    assert(four_at(h, 28) == four_at(le32(bytes), 0));
}

proof fn lemma_le32(n: nat)
    requires
        n <= u32::MAX,
    ensures
        four_at(le32(n), 0) == n,
{
}

} // verus!
