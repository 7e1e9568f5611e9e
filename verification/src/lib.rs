//! Sound-effect generation in the style of Bfxr: the parts that are verified.
//!
//! The synthesis itself works on floating-point samples and is not part of
//! this crate; what stands here is the integer side of the pipeline: the
//! WAV encoding through `hound`, the error reporting of the whole
//! parameters-to-WAV path, the envelope's stage machine, the noise
//! generator's integer state, the wave types and the output location of a
//! generated file.
use vstd::prelude::*;

pub mod envelope;
pub mod noise;
pub mod output;
pub mod params;
pub mod wav;

use crate::wav::encode_result;
use crate::wav::reads_back_as;
use crate::wav::wav_file;
use crate::wav::supported_bits;
use crate::wav::all_fit;
use crate::wav::encodable;

verus! {

/// What can go wrong between a parameter file and WAV bytes.
#[derive(Debug)]
pub enum SfxError {
    /// The parameter file could not be read; the parser's message.
    ParseError(String),
    /// The samples could not be encoded; the encoder's message.
    EncodeError(String),
}

impl SfxError {
    /// The message shown to a user: `Parse error: ...` or `Encode error: ...`.
    pub fn message(&self) -> (r: String)
        ensures
            r@ == match self {
                SfxError::ParseError(m) => "Parse error: "@ + m@,
                SfxError::EncodeError(m) => "Encode error: "@ + m@,
            },
    {
        match self {
            SfxError::ParseError(m) => {
                let mut r = String::from_str("Parse error: ");
                r.append(m.as_str());
                r
            },
            SfxError::EncodeError(m) => {
                let mut r = String::from_str("Encode error: ");
                r.append(m.as_str());
                r
            },
        }
    }
}

/// A synthesized sound, quantized to integer samples, with the output
/// settings of its parameter file.
pub struct PcmSound {
    /// The samples, already scaled to the output bit depth.
    pub samples: Vec<i32>,
    /// `output.sample_rate` of the parameter file.
    pub sample_rate: u32,
    /// `output.bit_depth` of the parameter file.
    pub bit_depth: u32,
}

/// An encoding's bytes, or its failure as an `EncodeError` with a message.
pub open spec fn encoded_as(r: Result<Vec<u8>, SfxError>, expected: Result<Seq<u8>, Seq<char>>) -> bool {
    match (r, expected) {
        (Ok(b), Ok(e)) => b@ == e,
        (Err(SfxError::EncodeError(m)), Err(e)) => m@ == e,
        _ => false,
    }
}

/// Encodes integer samples as a mono WAV file, as `wav::encode_wav` does;
/// a failure is an `EncodeError` with that function's message.
pub fn encode_wav(samples: &Vec<i32>, sample_rate: u32, bit_depth: u16) -> (r: Result<Vec<u8>, SfxError>)
    requires
        encodable(samples@, sample_rate, bit_depth),
    ensures
        encoded_as(r, encode_result(samples@, sample_rate, bit_depth)),
        supported_bits(bit_depth) && all_fit(samples@, bit_depth) ==> r is Ok,
        r is Ok ==> r->Ok_0@ == wav_file(sample_rate, bit_depth, samples@),
        r is Ok ==> reads_back_as(r->Ok_0@, sample_rate, bit_depth, samples@),
{
    match wav::encode_wav(samples, sample_rate, bit_depth) {
        Ok(b) => Ok(b),
        Err(m) => Err(SfxError::EncodeError(m)),
    }
}

/// From a parameter file to WAV bytes: a file that could not be read is a
/// `ParseError` with the reader's message; otherwise the synthesized sound
/// is encoded at its sample rate and at its bit depth taken as a `u16`, and
/// an encoding failure is an `EncodeError`.
pub fn generate_wav(rendered: Result<PcmSound, String>) -> (r: Result<Vec<u8>, SfxError>)
    requires
        rendered matches Ok(s) ==> encodable(s.samples@, s.sample_rate, s.bit_depth as u16),
    ensures
        rendered matches Err(m) ==> r matches Err(SfxError::ParseError(e)) && e@ == m@,
        rendered matches Ok(s) ==> encoded_as(r, encode_result(s.samples@, s.sample_rate, s.bit_depth as u16)),
        rendered matches Ok(s) ==> (supported_bits(s.bit_depth as u16) && all_fit(s.samples@, s.bit_depth as u16)
            ==> r is Ok),
        rendered matches Ok(s) ==> (r is Ok ==> r->Ok_0@ == wav_file(s.sample_rate, s.bit_depth as u16, s.samples@)),
        rendered matches Ok(s) ==> (r is Ok ==> reads_back_as(
            r->Ok_0@,
            s.sample_rate,
            s.bit_depth as u16,
            s.samples@,
        )),
{
    match rendered {
        Err(m) => Err(SfxError::ParseError(m)),
        Ok(sound) => encode_wav(&sound.samples, sound.sample_rate, sound.bit_depth as u16),
    }
}

} // verus!
