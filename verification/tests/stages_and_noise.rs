use sfx_core::envelope::EnvelopeStage;
use sfx_core::noise::{xorshift64, NOISE_SEED};
use sfx_core::params::{default_bit_depth, default_sample_rate, WaveType};

#[test]
fn stages_run_in_order_and_end() {
    let mut s = EnvelopeStage::Attack;
    let mut seen = vec![s];
    for _ in 0..5 {
        s = s.next();
        seen.push(s);
    }
    assert_eq!(
        seen,
        vec![
            EnvelopeStage::Attack,
            EnvelopeStage::Sustain,
            EnvelopeStage::Decay,
            EnvelopeStage::Finished,
            EnvelopeStage::Finished,
            EnvelopeStage::Finished,
        ]
    );
    assert!(s.is_finished());
    assert!(!EnvelopeStage::Decay.is_finished());
}

#[test]
fn stage_length_indices() {
    assert_eq!(EnvelopeStage::Attack.length_index(), Some(0));
    assert_eq!(EnvelopeStage::Sustain.length_index(), Some(1));
    assert_eq!(EnvelopeStage::Decay.length_index(), Some(2));
    assert_eq!(EnvelopeStage::Finished.length_index(), None);
}

#[test]
fn noise_sequence_from_seed() {
    assert_eq!(NOISE_SEED, 42);
    let a = xorshift64(NOISE_SEED);
    let b = xorshift64(a);
    let c = xorshift64(b);
    assert_eq!(a, 45454805674);
    assert_eq!(b, 11532217803599905471);
    assert_eq!(c, 10021416941527320954);
}

#[test]
fn noise_state_stays_nonzero() {
    let mut x: u64 = 1;
    for _ in 0..10000 {
        x = xorshift64(x);
        assert_ne!(x, 0);
    }
    assert_eq!(xorshift64(0), 0);
}

#[test]
fn parameter_defaults() {
    assert_eq!(WaveType::default(), WaveType::Square);
    assert_eq!(default_sample_rate(), 44100);
    assert_eq!(default_bit_depth(), 16);
}
