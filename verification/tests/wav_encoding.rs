use sfx_core::wav::{can_encode, encode_wav, pcm_max};

fn quantize(samples: &[f32], bits: u16) -> Vec<i32> {
    let max_val = pcm_max(bits);
    samples.iter().map(|&s| (s.clamp(-1.0, 1.0) * max_val as f32) as i32).collect()
}

#[test]
fn encode_produces_valid_wav() {
    let samples: Vec<f32> = (0..44100)
        .map(|i| (i as f32 / 44100.0 * 440.0 * std::f32::consts::TAU).sin() * 0.5)
        .collect();

    let wav = encode_wav(&quantize(&samples, 16), 44100, 16).unwrap();
    assert_eq!(&wav[0..4], b"RIFF");
    assert!(wav.len() > 44);
}

#[test]
fn encode_empty_samples() {
    let wav = encode_wav(&quantize(&[], 16), 44100, 16).unwrap();
    assert_eq!(&wav[0..4], b"RIFF");
}

#[test]
fn sixteen_bit_layout() {
    let wav = encode_wav(&vec![1, -1, 256], 44100, 16).unwrap();
    assert_eq!(wav.len(), 44 + 6);
    assert_eq!(&wav[8..12], b"WAVE");
    assert_eq!(&wav[36..40], b"data");
    assert_eq!(&wav[40..44], &[6, 0, 0, 0]);
    assert_eq!(&wav[44..], &[1, 0, 255, 255, 0, 1]);
}

#[test]
fn twenty_four_bit_uses_longer_header() {
    let wav = encode_wav(&vec![0, 8388607], 48000, 24).unwrap();
    assert_eq!(wav.len(), 68 + 6);
    assert_eq!(&wav[68..], &[0, 0, 0, 255, 255, 127]);
}

#[test]
fn eight_bit_samples_are_offset() {
    let wav = encode_wav(&vec![-128, 0, 127], 8000, 8).unwrap();
    assert_eq!(&wav[44..], &[0, 128, 255]);
}

#[test]
fn unsupported_bit_depth_is_refused() {
    let err = encode_wav(&vec![0, 1], 44100, 12).unwrap_err();
    assert_eq!(err, "WAV writer init failed: The wave format of the file is not supported.");
}

#[test]
fn too_wide_sample_is_refused() {
    let err = encode_wav(&vec![0, 200], 44100, 8).unwrap_err();
    assert_eq!(err, "WAV write failed: The sample has more bits than the destination type.");
}

#[test]
fn pcm_max_is_half_range_minus_one() {
    assert_eq!(pcm_max(1), 0);
    assert_eq!(pcm_max(8), 127);
    assert_eq!(pcm_max(16), 32767);
    assert_eq!(pcm_max(24), 8388607);
    assert_eq!(pcm_max(31), 1073741823);
}

#[test]
fn full_scale_samples_fit() {
    for bits in [8u16, 16, 24] {
        let m = pcm_max(bits);
        assert!(encode_wav(&vec![-m, m], 44100, bits).is_ok());
    }
}

#[test]
fn can_encode_matches_hound_limits() {

    assert!(can_encode(&vec![1, 2, 3], 44100, 16));
    assert!(!can_encode(&vec![1], 44100, 0));
    assert!(!can_encode(&vec![1], 0, 16));
    assert!(!can_encode(&vec![1], 3_000_000_000, 16));
    assert!(!can_encode(&vec![1], 44100, 65535));
    // Depths that hound refuses are encodable: the refusal is an error, not a panic.
    assert!(can_encode(&vec![1], 0, 12));
}

/// The `k` little-endian bytes of `v` in two's complement.
fn le(v: i64, k: usize) -> Vec<u8> {
    (0..k).map(|i| ((v >> (8 * i)) & 0xff) as u8).collect()
}

/// The WAV file that the library's contract describes, written out by hand.
fn expected_file(rate: u32, bits: u16, samples: &[i32]) -> Vec<u8> {
    let bps = ((bits + 7) / 8) as usize;
    let mut data = Vec::new();
    for &s in samples {
        if bits == 8 {
            data.extend(le(s as i64 + 128, 1));
        } else {
            data.extend(le(s as i64, bps));
        }
    }
    let mut common = le(1, 2);
    common.extend(le(rate as i64, 4));
    common.extend(le(rate as i64 * bps as i64, 4));
    common.extend(le(bps as i64, 2));
    let mut fmt = Vec::new();
    if bits > 16 {
        fmt.extend(le(40, 4));
        fmt.extend(le(0xfffe, 2));
        fmt.extend(common);
        fmt.extend(le(bps as i64 * 8, 2));
        fmt.extend(le(22, 2));
        fmt.extend(le(bits as i64, 2));
        fmt.extend(le(1, 4));
        fmt.extend([0x01u8, 0x00, 0x00, 0x00, 0x00, 0x00, 0x10, 0x00, 0x80, 0x00, 0x00, 0xaa, 0x00, 0x38, 0x9b, 0x71]);
    } else {
        fmt.extend(le(16, 4));
        fmt.extend(le(1, 2));
        fmt.extend(common);
        fmt.extend(le(bits as i64, 2));
    }
    let tail = if bits > 16 { 60 } else { 36 };
    let mut f = b"RIFF".to_vec();
    f.extend(le(tail + data.len() as i64, 4));
    f.extend(b"WAVE");
    f.extend(b"fmt ");
    f.extend(fmt);
    f.extend(b"data");
    f.extend(le(data.len() as i64, 4));
    f.extend(data);
    f
}

#[test]
fn output_is_the_described_file_at_every_depth() {
    let cases: [(u16, Vec<i32>); 4] = [
        (8, vec![-128, -1, 0, 1, 127]),
        (16, vec![-32768, -300, 0, 300, 32767]),
        (24, vec![-8388608, -70000, 0, 70000, 8388607]),
        (32, vec![i32::MIN, -5, 0, 5, i32::MAX]),
    ];
    for (bits, samples) in cases.iter() {
        for rate in [8000u32, 44100, 96000] {
            let wav = encode_wav(samples, rate, *bits).unwrap();
            assert_eq!(wav, expected_file(rate, *bits, samples), "bits {} rate {}", bits, rate);
        }
    }
}

#[test]
fn seven_scaled_samples_at_8000_hz() {
    let samples = vec![32767, -32767, 16383, -8191, 32767, -32767, 0];
    let wav = encode_wav(&samples, 8000, 16).unwrap();
    assert_eq!(wav.len(), 58);
    let back: Vec<i32> = wav[44..].chunks(2).map(|c| i16::from_le_bytes([c[0], c[1]]) as i32).collect();
    assert_eq!(back, samples);
    assert_eq!(wav, expected_file(8000, 16, &samples));
}

#[test]
fn default_length_sound_is_50064_bytes() {
    let wav = encode_wav(&vec![0; 25010], 44100, 16).unwrap();
    assert_eq!(wav.len(), 50064);
    assert_eq!(&wav[0..4], b"RIFF");
    assert_eq!(&wav[8..12], b"WAVE");
}

#[test]
fn empty_file_is_the_44_byte_header() {
    let wav = encode_wav(&vec![], 44100, 16).unwrap();
    assert_eq!(wav, expected_file(44100, 16, &[]));
    assert_eq!(wav.len(), 44);
}
