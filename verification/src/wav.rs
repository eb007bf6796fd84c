//! Framing 16-bit integer audio as a WAV file.

use vstd::prelude::*;

verus! {

/// The sample rate of the synthesised speech, in Hz.
pub const SAMPLE_RATE: u32 = 22050;

/// The two bytes of a 16-bit value, least significant first.
pub open spec fn le_bytes16(x: nat) -> Seq<u8> {
    seq![(x % 256) as u8, ((x / 256) % 256) as u8]
}

/// The four bytes of a 32-bit value, least significant first.
pub open spec fn le_bytes32(x: nat) -> Seq<u8> {
    seq![
        (x % 256) as u8,
        ((x / 256) % 256) as u8,
        ((x / 65536) % 256) as u8,
        ((x / 16777216) % 256) as u8,
    ]
}

/// The two's-complement bit pattern of a 16-bit signed sample.
pub open spec fn sample_bits(s: i16) -> nat {
    if s < 0 {
        (s + 65536) as nat
    } else {
        s as nat
    }
}

/// The samples one after the other, two bytes each, least significant first.
pub open spec fn sample_bytes(samples: Seq<i16>) -> Seq<u8>
    decreases samples.len(),
{
    if samples.len() == 0 {
        Seq::<u8>::empty()
    } else {
        sample_bytes(samples.drop_last()) + le_bytes16(sample_bits(samples.last()))
    }
}

/// A canonical 44-byte-header WAV file of 16-bit integer PCM: the `RIFF`
/// chunk, a 16-byte `fmt ` chunk of format 1, and the `data` chunk.
pub open spec fn wav_pcm16(channels: u16, sample_rate: u32, samples: Seq<i16>) -> Seq<u8> {
    let data_len = 2 * samples.len();
    seq![0x52u8, 0x49u8, 0x46u8, 0x46u8] + le_bytes32(36 + data_len) + seq![
        0x57u8,
        0x41u8,
        0x56u8,
        0x45u8,
    ] + seq![0x66u8, 0x6du8, 0x74u8, 0x20u8] + le_bytes32(16) + le_bytes16(1) + le_bytes16(
        channels as nat,
    ) + le_bytes32(sample_rate as nat) + le_bytes32((sample_rate * 2 * channels) as nat)
        + le_bytes16((2 * channels) as nat) + le_bytes16(16) + seq![0x64u8, 0x61u8, 0x74u8, 0x61u8]
        + le_bytes32(data_len) + sample_bytes(samples)
}

/// `hound::WavWriter` with a 16-bit integer `WavSpec`, writing into memory:
/// `new`, `write_sample` for each sample, then the drop that completes the
/// header. For one or two channels hound writes the PCMWAVEFORMAT header
/// that `wav_pcm16` spells out, then each sample in little-endian order.
#[verifier::external_body]
fn hound_pcm16(channels: u16, sample_rate: u32, samples: &[i16]) -> (r: Vec<u8>)
    requires
        1 <= channels <= 2,
        0 < sample_rate,
        sample_rate * 4 <= u32::MAX,
        2 * samples.len() + 36 <= u32::MAX,
    ensures
        r@ == wav_pcm16(channels, sample_rate, samples@),
{
    let spec = hound::WavSpec {
        channels,
        sample_rate,
        bits_per_sample: 16,
        sample_format: hound::SampleFormat::Int,
    };
    let mut out = std::io::Cursor::new(Vec::new());
    let mut writer = hound::WavWriter::new(&mut out, spec).expect("memory accepts the header");
    for s in samples {
        writer.write_sample(*s).expect("memory accepts every sample");
    }
    drop(writer);
    out.into_inner()
}

/// The audio as a mono 16-bit WAV file at the speech sample rate, with its
/// media type.
pub fn write_wav_pcm16(samples: &[i16]) -> (r: (&'static str, Vec<u8>))
    requires
        2 * samples.len() + 36 <= u32::MAX,
    ensures
        r.0@ == "audio/wav"@,
        r.1@ == wav_pcm16(1, SAMPLE_RATE, samples@),
{
    ("audio/wav", hound_pcm16(1, SAMPLE_RATE, samples))
}

/// `sample_bytes` has two bytes per sample.
pub proof fn lemma_sample_bytes_len(samples: Seq<i16>)
    ensures
        sample_bytes(samples).len() == 2 * samples.len(),
    decreases samples.len(),
{
    if samples.len() > 0 {
        lemma_sample_bytes_len(samples.drop_last());
    }
}

/// A WAV file of `n` 16-bit samples is 44 header bytes and `2 n` data bytes,
/// and its header states both sizes.
pub proof fn law_wav_size(channels: u16, sample_rate: u32, samples: Seq<i16>)
    ensures
        wav_pcm16(channels, sample_rate, samples).len() == 44 + 2 * samples.len(),
        wav_pcm16(channels, sample_rate, samples).subrange(4, 8) == le_bytes32(
            36 + 2 * samples.len(),
        ),
        wav_pcm16(channels, sample_rate, samples).subrange(40, 44) == le_bytes32(
            2 * samples.len(),
        ),
{
    lemma_sample_bytes_len(samples);
    let w = wav_pcm16(channels, sample_rate, samples);
    assert(w.subrange(4, 8) =~= le_bytes32(36 + 2 * samples.len()));
    assert(w.subrange(40, 44) =~= le_bytes32(2 * samples.len()));
}

} // verus!
