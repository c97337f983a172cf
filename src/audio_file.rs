//! WAV framing of mono 16-bit PCM.
use vstd::prelude::*;
use crate::audio::{downmix, downmix_i16, encode_mono, ints_of_i16, pcm_bytes};
use crate::error::AppError;

verus! {

/// Little-endian bytes of a 16-bit value.
pub open spec fn le16(x: int) -> Seq<u8> {
    seq![(x % 256) as u8, ((x / 256) % 256) as u8]
}

/// Little-endian bytes of a 32-bit value.
pub open spec fn le32(x: int) -> Seq<u8> {
    seq![
        (x % 256) as u8,
        ((x / 256) % 256) as u8,
        ((x / 65536) % 256) as u8,
        ((x / 16777216) % 256) as u8,
    ]
}

/// The 44-byte header of a WAV file holding `data_len` bytes of mono 16-bit
/// PCM at `sample_rate`: the `RIFF`, `WAVE`, `fmt ` and `data` tags with
/// the sizes, format 1 (PCM), one channel, the byte rate, block alignment 2
/// and 16 bits per sample.
pub open spec fn wav_header(sample_rate: int, data_len: int) -> Seq<u8> {
    seq![82u8, 73, 70, 70] + le32(36 + data_len) + seq![87u8, 65, 86, 69] + seq![
        102u8,
        109,
        116,
        32,
    ] + le32(16) + le16(1) + le16(1) + le32(sample_rate) + le32(sample_rate * 2) + le16(2)
        + le16(16) + seq![100u8, 97, 116, 97] + le32(data_len)
}

fn push_le16(out: &mut Vec<u8>, x: u16)
    ensures
        final(out)@ == old(out)@ + le16(x as int),
{
    out.push((x % 256) as u8);
    out.push(((x / 256) % 256) as u8);
    proof {
        assert(final(out)@ =~= old(out)@ + le16(x as int));
    }
}

fn push_le32(out: &mut Vec<u8>, x: u32)
    ensures
        final(out)@ == old(out)@ + le32(x as int),
{
    out.push((x % 256) as u8);
    out.push(((x / 256) % 256) as u8);
    out.push(((x / 65536) % 256) as u8);
    out.push(((x / 16777216) % 256) as u8);
    proof {
        assert(final(out)@ =~= old(out)@ + le32(x as int));
    }
}

fn push_tag(out: &mut Vec<u8>, a: u8, b: u8, c: u8, d: u8)
    ensures
        final(out)@ == old(out)@ + seq![a, b, c, d],
{
    out.push(a);
    out.push(b);
    out.push(c);
    out.push(d);
    proof {
        assert(final(out)@ =~= old(out)@ + seq![a, b, c, d]);
    }
}

/// A WAV file holding raw mono 16-bit little-endian PCM.
pub fn build_wav_bytes(sample_rate: u32, pcm_data: &[u8]) -> (r: Vec<u8>)
    requires
        sample_rate as int * 16 <= u32::MAX,
        pcm_data@.len() + 36 <= u32::MAX,
    ensures
        r@ == wav_header(sample_rate as int, pcm_data@.len() as int) + pcm_data@,
{
    let num_channels: u16 = 1;
    let bits_per_sample: u16 = 16;
    let byte_rate: u32 = sample_rate * (num_channels as u32) * (bits_per_sample as u32) / 8;
    let block_align: u16 = num_channels * bits_per_sample / 8;
    let data_size: u32 = pcm_data.len() as u32;
    let file_size: u32 = 36 + data_size;
    let mut wav: Vec<u8> = Vec::new();
    push_tag(&mut wav, 82, 73, 70, 70);
    push_le32(&mut wav, file_size);
    push_tag(&mut wav, 87, 65, 86, 69);
    push_tag(&mut wav, 102, 109, 116, 32);
    push_le32(&mut wav, 16);
    push_le16(&mut wav, 1);
    push_le16(&mut wav, num_channels);
    push_le32(&mut wav, sample_rate);
    push_le32(&mut wav, byte_rate);
    push_le16(&mut wav, block_align);
    push_le16(&mut wav, bits_per_sample);
    push_tag(&mut wav, 100, 97, 116, 97);
    push_le32(&mut wav, data_size);
    let ghost header = wav@;
    proof {
        assert(byte_rate as int == sample_rate as int * 2);
        assert(header =~= wav_header(sample_rate as int, pcm_data@.len() as int));
    }
    let mut i: usize = 0;
    while i < pcm_data.len()
        invariant
            i <= pcm_data@.len(),
            wav@ == header + pcm_data@.take(i as int),
        decreases pcm_data@.len() - i,
    {
        wav.push(pcm_data[i]);
        proof {
            assert(pcm_data@.take(i + 1) =~= pcm_data@.take(i as int).push(pcm_data@[i as int]));
            assert(wav@ =~= header + pcm_data@.take(i + 1));
        }
        i = i + 1;
    }
    proof {
        assert(pcm_data@.take(pcm_data@.len() as int) =~= pcm_data@);
    }
    wav
}

/// Whether a WAV file's sample format can be read: 16-bit integer samples
/// and at least one channel.
pub fn check_wav_format(is_int: bool, bits_per_sample: u16, channels: u16) -> (r: Result<(), AppError>)
    ensures
        (!is_int || bits_per_sample != 16) ==> (r matches Err(AppError::Audio(m)) && m@
            == "WAVは16-bit PCMのみ対応しています"@),
        (is_int && bits_per_sample == 16 && channels == 0) ==> (r matches Err(AppError::Audio(m))
            && m@ == "channels=0"@),
        (is_int && bits_per_sample == 16 && channels > 0) ==> r is Ok,
{
    if !is_int || bits_per_sample != 16 {
        return Err(AppError::Audio(String::from_str("WAVは16-bit PCMのみ対応しています")));
    }
    if channels == 0 {
        return Err(AppError::Audio(String::from_str("channels=0")));
    }
    Ok(())
}

/// The samples of the complete frames: a trailing partial frame is left out.
pub open spec fn complete_frames(s: Seq<int>, ch: nat) -> Seq<int> {
    s.take(s.len() - s.len() % ch)
}

/// Interleaved samples of a WAV file as mono PCM bytes: each complete frame
/// averaged into one sample.
pub fn wav_samples_to_mono(samples: &[i16], channels: usize) -> (r: Vec<u8>)
    requires
        1 <= channels <= 65535,
    ensures
        r@ == pcm_bytes(downmix(complete_frames(ints_of_i16(samples@), channels as nat), channels as nat)),
{
    let n = samples.len();
    let rem = n % channels;
    assert(rem <= n) by (nonlinear_arith)
        requires
            rem == n % channels,
            channels >= 1,
    ;
    let m = n - rem;
    let mut whole: Vec<i16> = Vec::new();
    let mut i: usize = 0;
    while i < m
        invariant
            m <= n == samples@.len(),
            i <= m,
            whole@ == samples@.take(i as int),
        decreases m - i,
    {
        whole.push(samples[i]);
        proof {
            assert(samples@.take(i + 1) =~= samples@.take(i as int).push(samples@[i as int]));
        }
        i = i + 1;
    }
    proof {
        assert(ints_of_i16(whole@) =~= complete_frames(ints_of_i16(samples@), channels as nat));
    }
    let mono = downmix_i16(whole.as_slice(), channels);
    let (bytes, _peak) = encode_mono(&mono);
    bytes
}

} // verus!
