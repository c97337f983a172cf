use whisp::audio::{downmix_i16, downmix_u16, encode_i16, encode_u16, u16_to_i16};
use whisp::audio_file::{build_wav_bytes, check_wav_format, wav_samples_to_mono};
use whisp::error::AppError;

#[test]
fn u16_to_i16_center() {
    assert_eq!(u16_to_i16(32768u16), 0);
}

#[test]
fn u16_to_i16_extremes() {
    assert_eq!(u16_to_i16(0), i16::MIN);
    assert_eq!(u16_to_i16(u16::MAX), i16::MAX);
}

#[test]
fn opposite_stereo_extremes_mix_to_zero() {
    assert_eq!(downmix_i16(&[i16::MAX, -i16::MAX], 2), vec![0]);
    assert_eq!(downmix_i16(&[i16::MAX, i16::MIN], 2), vec![0]);
    assert_eq!(downmix_i16(&[1000, -1000, -5, 5], 2), vec![0, 0]);
}

#[test]
fn downmix_rounds_toward_zero_and_keeps_partial_frame() {
    assert_eq!(downmix_i16(&[-3, 0, 3, 0], 2), vec![-1, 1]);
    assert_eq!(downmix_i16(&[9, 9, 9, 4], 3), vec![9, 1]);
    assert_eq!(downmix_i16(&[7, -8, 9], 1), vec![7, -8, 9]);
    assert_eq!(downmix_i16(&[7, -8], 0), vec![7, -8]);
    assert_eq!(downmix_i16(&[], 2), Vec::<i16>::new());
}

#[test]
fn downmix_unsigned_averages() {
    assert_eq!(downmix_u16(&[65535, 65535, 0, 1], 2), vec![65535, 0]);
    assert_eq!(downmix_u16(&[10, 20, 30], 3), vec![20]);
}

#[test]
fn encode_signed_gives_le_bytes_and_peak() {
    let (bytes, peak) = encode_i16(&[1, -2, 256], 1);
    assert_eq!(bytes, vec![1, 0, 0xfe, 0xff, 0, 1]);
    assert_eq!(peak, 256);
    let (bytes, peak) = encode_i16(&[i16::MIN], 1);
    assert_eq!(bytes, vec![0x00, 0x80]);
    assert_eq!(peak, 32768);
    let (bytes, peak) = encode_i16(&[], 2);
    assert!(bytes.is_empty());
    assert_eq!(peak, 0);
}

#[test]
fn encode_unsigned_recentres() {
    let (bytes, peak) = encode_u16(&[32768, 32768, 0, 0], 2);
    assert_eq!(bytes, vec![0, 0, 0x00, 0x80]);
    assert_eq!(peak, 32768);
    let (bytes, peak) = encode_u16(&[33268], 1);
    assert_eq!(bytes, vec![0xf4, 0x01]);
    assert_eq!(peak, 500);
}

#[test]
fn wav_header_layout() {
    let wav = build_wav_bytes(16000, &[1, 2, 3, 4]);
    assert_eq!(wav.len(), 48);
    assert_eq!(&wav[0..4], b"RIFF");
    assert_eq!(&wav[4..8], &40u32.to_le_bytes());
    assert_eq!(&wav[8..12], b"WAVE");
    assert_eq!(&wav[12..16], b"fmt ");
    assert_eq!(&wav[16..20], &16u32.to_le_bytes());
    assert_eq!(&wav[20..22], &1u16.to_le_bytes());
    assert_eq!(&wav[22..24], &1u16.to_le_bytes());
    assert_eq!(&wav[24..28], &16000u32.to_le_bytes());
    assert_eq!(&wav[28..32], &32000u32.to_le_bytes());
    assert_eq!(&wav[32..34], &2u16.to_le_bytes());
    assert_eq!(&wav[34..36], &16u16.to_le_bytes());
    assert_eq!(&wav[36..40], b"data");
    assert_eq!(&wav[40..44], &4u32.to_le_bytes());
    assert_eq!(&wav[44..48], &[1, 2, 3, 4]);
}

#[test]
fn wav_format_checks() {
    assert!(check_wav_format(true, 16, 2).is_ok());
    match check_wav_format(false, 16, 1) {
        Err(AppError::Audio(m)) => assert_eq!(m, "WAVは16-bit PCMのみ対応しています"),
        _ => panic!("expected an audio error"),
    }
    match check_wav_format(true, 24, 1) {
        Err(AppError::Audio(m)) => assert_eq!(m, "WAVは16-bit PCMのみ対応しています"),
        _ => panic!("expected an audio error"),
    }
    match check_wav_format(true, 16, 0) {
        Err(AppError::Audio(m)) => assert_eq!(m, "channels=0"),
        _ => panic!("expected an audio error"),
    }
}

#[test]
fn wav_samples_drop_partial_frame() {
    assert_eq!(wav_samples_to_mono(&[100, 300, -4, 0, 77], 2), vec![200, 0, 0xfe, 0xff]);
    assert_eq!(wav_samples_to_mono(&[5, -1], 1), vec![5, 0, 0xff, 0xff]);
}
