//! The parameter values that the verified side of the library uses.
use vstd::prelude::*;

verus! {

/// The waveform of a sound (the Bfxr wave shapes supported so far).
#[derive(Clone, Copy, Debug, PartialEq, Eq, Structural)]
pub enum WaveType {
    Square,
    Sawtooth,
    Sine,
    Noise,
    Triangle,
}

impl Default for WaveType {
    /// A parameter file without a wave type plays a square wave.
    fn default() -> (r: WaveType)
        ensures
            r == WaveType::Square,
    {
        WaveType::Square
    }
}

/// Sample rate used when a parameter file does not give one.
pub fn default_sample_rate() -> (r: u32)
    ensures
        r == 44100,
{
    44100
}

/// Bit depth used when a parameter file does not give one.
pub fn default_bit_depth() -> (r: u32)
    ensures
        r == 16,
{
    16
}

} // verus!
