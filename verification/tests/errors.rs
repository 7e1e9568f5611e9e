use sfx_core::{encode_wav, generate_wav, PcmSound, SfxError};

#[test]
fn parse_failure_is_reported_as_parse_error() {
    let r = generate_wav(Err("JSON parse error: EOF".to_string()));
    match r {
        Err(SfxError::ParseError(m)) => assert_eq!(m, "JSON parse error: EOF"),
        _ => panic!("expected a parse error"),
    }
}

#[test]
fn generated_sound_is_encoded() {
    let sound = PcmSound { samples: vec![0, 100, -100], sample_rate: 44100, bit_depth: 16 };
    let wav = generate_wav(Ok(sound)).unwrap();
    assert_eq!(&wav[0..4], b"RIFF");
    assert_eq!(wav.len(), 44 + 6);
}

#[test]
fn bit_depth_is_taken_as_u16() {
    // 65552 is 16 once truncated to 16 bits.
    let sound = PcmSound { samples: vec![5], sample_rate: 44100, bit_depth: 65552 };
    let wav = generate_wav(Ok(sound)).unwrap();
    assert_eq!(wav.len(), 44 + 2);
}

#[test]
fn encode_failure_is_reported_as_encode_error() {
    let sound = PcmSound { samples: vec![0], sample_rate: 44100, bit_depth: 20 };
    match generate_wav(Ok(sound)) {
        Err(SfxError::EncodeError(m)) => {
            assert_eq!(m, "WAV writer init failed: The wave format of the file is not supported.")
        }
        _ => panic!("expected an encode error"),
    }
    assert!(matches!(encode_wav(&vec![1000], 44100, 8), Err(SfxError::EncodeError(_))));
}

#[test]
fn error_messages() {
    assert_eq!(SfxError::ParseError("x".to_string()).message(), "Parse error: x");
    assert_eq!(SfxError::EncodeError("y".to_string()).message(), "Encode error: y");
}
