# sfx-core

A Bfxr-style sound-effect generator: a JSON parameter file goes in, a mono
WAV file comes out.

- `src/` is the verified library (Verus): the WAV encoding through `hound`
  (its result is stated byte for byte: the RIFF/WAVE layout of one channel of
  integer samples, with lemmas that the header and the samples read back),
  the parameters-to-WAV entry point and its errors, the envelope's stage
  machine, the integer state of the noise generator, the wave types and
  defaults, and the default output location read from a parameter file.
- `app/` is the `sfx` command line tool and everything that computes with
  floating-point samples: reading parameter files with serde, the oscillators,
  the envelope's volume, the synthesis loop and the scaling of samples to
  integers.
- `tests/` exercises the library.
