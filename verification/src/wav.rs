//! Mono integer PCM to WAV bytes, written by `hound` into an in-memory buffer.
use vstd::prelude::*;
use std::io::Cursor;

verus! {

/// `std::io::Cursor`, an in-memory buffer with a write position.
#[verifier::external_type_specification]
#[verifier::external_body]
#[verifier::reject_recursive_types(T)]
pub struct ExCursor<T>(Cursor<T>);

/// `hound::WavSpec`, the format of a WAV file: channels, sample rate, bits
/// per sample and sample format.
#[verifier::external_type_specification]
pub struct ExWavSpec(hound::WavSpec);

/// `hound::SampleFormat`: integer or floating-point samples.
#[verifier::external_type_specification]
pub struct ExSampleFormat(hound::SampleFormat);

/// A `hound::WavWriter` writing into a borrowed in-memory buffer.
///
/// `hound::WavWriter<W>` bounds `W` by `std::io::Write + std::io::Seek`,
/// traits that the declaration of an outside type cannot carry, so the
/// writer is held in this struct. What the library knows of it is given by
/// `pcm_writer_rate`, `pcm_writer_bits`, `pcm_writer_samples` and
/// `pcm_writer_final_bytes`.
#[verifier::external_body]
pub struct PcmWriter<'a> {
    inner: hound::WavWriter<&'a mut Cursor<Vec<u8>>>,
}

/// The sample rate that a `PcmWriter` was opened with.
pub uninterp spec fn pcm_writer_rate(w: PcmWriter) -> u32;

/// The bits per sample that a `PcmWriter` was opened with.
pub uninterp spec fn pcm_writer_bits(w: PcmWriter) -> u16;

/// The samples that a `PcmWriter` has accepted so far, in order.
pub uninterp spec fn pcm_writer_samples(w: PcmWriter) -> Seq<i32>;

/// The bytes that the buffer borrowed by a `PcmWriter` holds when that
/// borrow ends (the final value of the mutable reference that the writer
/// holds).
pub uninterp spec fn pcm_writer_final_bytes(w: PcmWriter) -> Seq<u8>;

/// The bytes that an in-memory buffer holds.
pub uninterp spec fn cursor_bytes(c: Cursor<Vec<u8>>) -> Seq<u8>;

/// The write position of an in-memory buffer.
pub uninterp spec fn cursor_position(c: Cursor<Vec<u8>>) -> u64;

/// The bit depths for which `hound` writes integer samples.
pub open spec fn supported_bits(bits: u16) -> bool {
    bits == 8 || bits == 16 || bits == 24 || bits == 32
}

/// The bytes that `hound` stores per sample: the bit depth rounded up to bytes.
pub open spec fn bytes_per_sample(bits: u16) -> int {
    (bits + 7) / 8
}

/// What the file-size field adds to the data length: the header after its
/// first 8 bytes. Above 16 bits the extensible format is written.
pub open spec fn header_tail(bits: u16) -> int {
    if bits > 16 { 60 } else { 36 }
}

/// The smallest and largest value that a sample may take at a bit depth.
pub open spec fn sample_min(bits: u16) -> int {
    if bits == 8 { -128 } else if bits == 16 { -32768 } else if bits == 24 { -8388608 } else { i32::MIN as int }
}

pub open spec fn sample_max(bits: u16) -> int {
    if bits == 8 { 127 } else if bits == 16 { 32767 } else if bits == 24 { 8388607 } else { i32::MAX as int }
}

/// Whether `s` can be stored as a sample at the supported bit depth `bits`.
pub open spec fn sample_fits(s: i32, bits: u16) -> bool {
    sample_min(bits) <= s <= sample_max(bits)
}

/// Whether every sample of `samples` fits at `bits`.
pub open spec fn all_fit(samples: Seq<i32>, bits: u16) -> bool {
    forall|i: int| 0 <= i < samples.len() ==> sample_fits(#[trigger] samples[i], bits)
}

/// The `k` bytes of `v` in little-endian order, negative values in two's
/// complement.
pub open spec fn le_bytes(v: int, k: nat) -> Seq<u8>
    decreases k,
{
    if k == 0 {
        Seq::empty()
    } else {
        seq![(v % 256) as u8] + le_bytes(v / 256, (k - 1) as nat)
    }
}

/// How one sample is stored: unsigned with an offset of 128 at 8 bits,
/// little-endian two's complement in the sample's bytes otherwise.
pub open spec fn sample_bytes(s: i32, bits: u16) -> Seq<u8> {
    if bits == 8 {
        le_bytes(s + 128, 1)
    } else {
        le_bytes(s as int, bytes_per_sample(bits) as nat)
    }
}

/// The data chunk's contents: the samples one after another.
pub open spec fn pcm_data(samples: Seq<i32>, bits: u16) -> Seq<u8>
    decreases samples.len(),
{
    if samples.len() == 0 {
        Seq::empty()
    } else {
        pcm_data(samples.drop_last(), bits) + sample_bytes(samples.last(), bits)
    }
}

/// The sub-format GUID of integer PCM in the extensible format.
pub open spec fn pcm_subformat_guid() -> Seq<u8> {
    seq![0x01u8, 0x00, 0x00, 0x00, 0x00, 0x00, 0x10, 0x00, 0x80, 0x00, 0x00, 0xaa, 0x00, 0x38, 0x9b, 0x71]
}

/// The four-character codes of the RIFF WAVE layout.
pub open spec fn riff_id() -> Seq<u8> {
    seq![0x52u8, 0x49, 0x46, 0x46]
}

pub open spec fn wave_id() -> Seq<u8> {
    seq![0x57u8, 0x41, 0x56, 0x45]
}

pub open spec fn fmt_id() -> Seq<u8> {
    seq![0x66u8, 0x6d, 0x74, 0x20]
}

pub open spec fn data_id() -> Seq<u8> {
    seq![0x64u8, 0x61, 0x74, 0x61]
}

/// The `fmt ` chunk of one channel of integer samples: its size, then
/// PCMWAVEFORMAT up to 16 bits, WAVEFORMATEXTENSIBLE above.
pub open spec fn fmt_chunk(sample_rate: u32, bits: u16) -> Seq<u8> {
    let bps = bytes_per_sample(bits);
    let common = le_bytes(1, 2) + le_bytes(sample_rate as int, 4) + le_bytes(sample_rate * bps, 4) + le_bytes(bps, 2);
    if bits > 16 {
        le_bytes(40, 4) + le_bytes(0xfffe, 2) + common + le_bytes(bps * 8, 2) + le_bytes(22, 2)
            + le_bytes(bits as int, 2) + le_bytes(1, 4) + pcm_subformat_guid()
    } else {
        le_bytes(16, 4) + le_bytes(1, 2) + common + le_bytes(bits as int, 2)
    }
}

/// The WAV file of one channel of integer `samples` at `sample_rate` and
/// `bits` bits: the RIFF header with the file size, `WAVE`, the `fmt `
/// chunk, and the `data` chunk with its length and the samples.
pub open spec fn wav_file(sample_rate: u32, bits: u16, samples: Seq<i32>) -> Seq<u8> {
    let data = pcm_data(samples, bits);
    wav_header(sample_rate, bits, data.len() as int) + data
}

/// Everything of the WAV file before the samples, for `data_len` bytes of
/// samples.
pub open spec fn wav_header(sample_rate: u32, bits: u16, data_len: int) -> Seq<u8> {
    riff_id() + le_bytes(header_tail(bits) + data_len, 4) + wave_id() + fmt_id() + fmt_chunk(sample_rate, bits)
        + data_id() + le_bytes(data_len, 4)
}

/// `hound`'s text for an unsupported format.
pub open spec fn unsupported_text() -> Seq<char> {
    "The wave format of the file is not supported."@
}

/// `hound`'s text for a sample that does not fit the bit depth.
pub open spec fn too_wide_text() -> Seq<char> {
    "The sample has more bits than the destination type."@
}

pub open spec fn init_failed_prefix() -> Seq<char> {
    "WAV writer init failed: "@
}

pub open spec fn write_failed_prefix() -> Seq<char> {
    "WAV write failed: "@
}

/// Whether every prefix of `samples` that is accepted in full still fits
/// the 32-bit size fields: the byte count of the samples plus the header.
/// Writing stops at the first sample that does not fit.
pub open spec fn sizes_fit(samples: Seq<i32>, bits: u16) -> bool {
    forall|k: int|
        0 <= k <= samples.len() && #[trigger] all_fit(samples.take(k), bits) ==> k * bytes_per_sample(bits)
            + header_tail(bits) <= u32::MAX
}

/// The inputs on which `hound` neither panics nor overflows its 32-bit
/// size fields while encoding `samples`.
pub open spec fn encodable(samples: Seq<i32>, sample_rate: u32, bits: u16) -> bool {
    &&& 1 <= bits <= 65528
    &&& supported_bits(bits) ==> {
        &&& 1 <= sample_rate
        &&& sample_rate * bytes_per_sample(bits) <= u32::MAX
        &&& sizes_fit(samples, bits)
    }
}

/// The result of encoding `samples` at `sample_rate` and `bits` bits: an
/// unsupported bit depth is refused when the writer is opened, a sample
/// that does not fit is refused when it is written, and otherwise the
/// result is the WAV file of the samples.
pub open spec fn encode_result(samples: Seq<i32>, sample_rate: u32, bits: u16) -> Result<Seq<u8>, Seq<char>> {
    if !supported_bits(bits) {
        Err(init_failed_prefix() + unsupported_text())
    } else if !all_fit(samples, bits) {
        Err(write_failed_prefix() + too_wide_text())
    } else {
        Ok(wav_file(sample_rate, bits, samples))
    }
}

/// The bytes or the message of an encoding.
pub open spec fn result_view(r: Result<Vec<u8>, String>) -> Result<Seq<u8>, Seq<char>> {
    match r {
        Ok(b) => Ok(b@),
        Err(m) => Err(m@),
    }
}

/// Calls `Cursor::new`: an in-memory buffer over `bytes`, at position 0.
#[verifier::external_body]
fn new_buffer(bytes: Vec<u8>) -> (r: Cursor<Vec<u8>>)
    ensures
        cursor_bytes(r) == bytes@,
        cursor_position(r) == 0,
{
    Cursor::new(bytes)
}

/// Calls `hound::WavWriter::new` with `spec`, writing into `buf`; a
/// refusal is given as `hound::Error`'s text.
///
/// Claimed from hound's source: a bit depth other than 8, 16, 24 or 32 is
/// refused with `Error::Unsupported`; any other bit depth gives a writer,
/// since writing the header into an in-memory buffer does not fail. The
/// writer keeps the rate and bit depth of `spec`, has accepted no sample,
/// and holds `buf` until it is finalized. The `requires` leaves out the
/// inputs on which hound's own arithmetic panics (`bits + 7` overflowing, a
/// zero sample rate, a byte rate above `u32::MAX`, and a zero byte width
/// when the writer is dropped), and keeps to one channel of integer samples
/// written from the start of an empty buffer.
#[verifier::external_body]
fn open_writer<'a>(buf: &'a mut Cursor<Vec<u8>>, spec: hound::WavSpec) -> (r: Result<PcmWriter<'a>, String>)
    requires
        cursor_bytes(*old(buf)) == Seq::<u8>::empty(),
        cursor_position(*old(buf)) == 0,
        spec.channels == 1,
        spec.sample_format == hound::SampleFormat::Int,
        1 <= spec.bits_per_sample <= 65528,
        supported_bits(spec.bits_per_sample) ==> 1 <= spec.sample_rate && spec.sample_rate * bytes_per_sample(
            spec.bits_per_sample,
        ) <= u32::MAX,
    ensures
        !supported_bits(spec.bits_per_sample) ==> r is Err && r->Err_0@ == unsupported_text(),
        supported_bits(spec.bits_per_sample) ==> r is Ok,
        r is Ok ==> pcm_writer_rate(r->Ok_0) == spec.sample_rate && pcm_writer_bits(r->Ok_0) == spec.bits_per_sample
            && pcm_writer_samples(r->Ok_0) == Seq::<i32>::empty(),
        r is Ok ==> pcm_writer_final_bytes(r->Ok_0) == cursor_bytes(*final(buf)),
{
    hound::WavWriter::new(buf, spec).map(|inner| PcmWriter { inner }).map_err(|e| e.to_string())
}

/// Calls `hound::WavWriter::write_sample` with one `i32` sample; a refusal is
/// given as `hound::Error`'s text.
///
/// Claimed from hound's source: a sample outside the range of the bit depth
/// is refused with `Error::TooWide` and nothing is counted; a sample in the
/// range is accepted (writing into an in-memory buffer does not fail) and
/// appended to what the writer holds. The `requires` keeps hound's 32-bit
/// byte counter, and the file size computed from it, from overflowing, also
/// when the writer is dropped after a refusal.
#[verifier::external_body]
fn write_sample(w: &mut PcmWriter, s: i32) -> (r: Result<(), String>)
    requires
        supported_bits(pcm_writer_bits(*old(w))),
        pcm_writer_samples(*old(w)).len() * bytes_per_sample(pcm_writer_bits(*old(w)))
            + header_tail(pcm_writer_bits(*old(w))) <= u32::MAX,
        sample_fits(s, pcm_writer_bits(*old(w))) ==> (pcm_writer_samples(*old(w)).len() + 1)
            * bytes_per_sample(pcm_writer_bits(*old(w))) + header_tail(pcm_writer_bits(*old(w))) <= u32::MAX,
    ensures
        pcm_writer_rate(*final(w)) == pcm_writer_rate(*old(w)),
        pcm_writer_bits(*final(w)) == pcm_writer_bits(*old(w)),
        pcm_writer_final_bytes(*final(w)) == pcm_writer_final_bytes(*old(w)),
        !sample_fits(s, pcm_writer_bits(*old(w))) ==> r is Err && r->Err_0@ == too_wide_text()
            && pcm_writer_samples(*final(w)) == pcm_writer_samples(*old(w)),
        sample_fits(s, pcm_writer_bits(*old(w))) ==> r is Ok
            && pcm_writer_samples(*final(w)) == pcm_writer_samples(*old(w)).push(s),
{
    w.inner.write_sample(s).map_err(|e| e.to_string())
}

/// Calls `hound::WavWriter::finalize`, which fills in the size fields of the
/// header and ends the writer's hold on its buffer; a refusal is given as
/// `hound::Error`'s text.
///
/// Claimed from hound's source: finalizing a one-channel writer into an
/// in-memory buffer succeeds, and the buffer then holds the WAV file of the
/// samples that the writer accepted, at its rate and bit depth.
#[verifier::external_body]
fn finalize(w: PcmWriter) -> (r: Result<(), String>)
    requires
        supported_bits(pcm_writer_bits(w)),
        pcm_writer_samples(w).len() * bytes_per_sample(pcm_writer_bits(w)) + header_tail(pcm_writer_bits(w))
            <= u32::MAX,
    ensures
        r is Ok,
        r is Ok ==> pcm_writer_final_bytes(w) == wav_file(pcm_writer_rate(w), pcm_writer_bits(w), pcm_writer_samples(w)),
{
    w.inner.finalize().map_err(|e| e.to_string())
}

/// Calls `Cursor::into_inner`, handing out the bytes of the buffer.
#[verifier::external_body]
fn into_bytes(buf: Cursor<Vec<u8>>) -> (r: Vec<u8>)
    ensures
        r@ == cursor_bytes(buf),
{
    buf.into_inner()
}

/// `prefix` followed by `text`.
fn prefixed(prefix: &str, text: &String) -> (r: String)
    ensures
        r@ == prefix@ + text@,
{
    let mut r = String::from_str(prefix);
    r.append(text.as_str());
    r
}

/// The largest sample value at `bit_depth` bits: `2^(bit_depth - 1) - 1`.
/// Full-scale floating-point samples are scaled by it before encoding.
pub fn pcm_max(bit_depth: u16) -> (r: i32)
    requires
        1 <= bit_depth <= 31,
    ensures
        r == vstd::arithmetic::power2::pow2((bit_depth - 1) as nat) - 1,
{
    let shift: u32 = (bit_depth - 1) as u32;
    proof {
        vstd::arithmetic::power2::lemma_pow2_pos(shift as nat);
        lemma_shl_is_pow2(shift);
    }
    (1i32 << shift) - 1
}

proof fn lemma_shl_is_pow2(shift: u32)
    requires
        shift <= 30,
    ensures
        (1i32 << shift) as int == vstd::arithmetic::power2::pow2(shift as nat),
{
    vstd::arithmetic::power2::lemma2_to64();
    assert((1i32 << 30) == 0x4000_0000) by (bit_vector);
    assert(shift <= 30 ==> (1i32 << shift) == (1u32 << shift) as i32) by (bit_vector);
    vstd::bits::lemma_u32_shl_is_mul(1, shift);
}

/// Whether `s` fits at the supported bit depth `bits`.
fn fits(s: i32, bits: u16) -> (r: bool)
    requires
        supported_bits(bits),
    ensures
        r == sample_fits(s, bits),
{
    if bits == 8 {
        -128 <= s && s <= 127
    } else if bits == 16 {
        -32768 <= s && s <= 32767
    } else if bits == 24 {
        -8388608 <= s && s <= 8388607
    } else {
        true
    }
}

/// Whether `encode_wav` may be called with these arguments, that is, whether
/// `hound` can encode them without a panic or an overflow of its size fields.
pub fn can_encode(samples: &Vec<i32>, sample_rate: u32, bit_depth: u16) -> (r: bool)
    ensures
        r == encodable(samples@, sample_rate, bit_depth),
{
    if bit_depth < 1 || bit_depth > 65528 {
        return false;
    }
    if !(bit_depth == 8 || bit_depth == 16 || bit_depth == 24 || bit_depth == 32) {
        return true;
    }
    let bytes: u64 = ((bit_depth + 7) / 8) as u64;
    assert(1 <= bytes <= 4);
    assert((sample_rate as u64) * bytes <= 4 * 0xffff_ffff) by (nonlinear_arith)
        requires
            bytes <= 4,
    ;
    if sample_rate < 1 || (sample_rate as u64) * bytes > 0xffff_ffff {
        return false;
    }
    let tail: u64 = if bit_depth > 16 { 60 } else { 36 };
    let mut k: usize = 0;
    while k < samples.len() && fits(samples[k], bit_depth)
        invariant
            k <= samples@.len(),
            supported_bits(bit_depth),
            all_fit(samples@.take(k as int), bit_depth),
        decreases samples.len() - k,
    {
        assert(all_fit(samples@.take(k + 1), bit_depth)) by {
            assert forall|j: int| 0 <= j < k + 1 implies sample_fits(#[trigger] samples@.take(k + 1)[j], bit_depth) by {
                if j < k {
                    assert(samples@.take(k + 1)[j] == samples@.take(k as int)[j]);
                }
            }
        }
        k = k + 1;
    }
    assert((k as u128) * (bytes as u128) <= 4 * 0xffff_ffff_ffff_ffffu128) by (nonlinear_arith)
        requires
            bytes <= 4,
            k <= 0xffff_ffff_ffff_ffffu128,
    ;
    let r = (k as u128) * (bytes as u128) + (tail as u128) <= 0xffff_ffff;
    proof {
        let bps = bytes_per_sample(bit_depth);
        if r {
            assert forall|m: int|
                0 <= m <= samples@.len() && #[trigger] all_fit(samples@.take(m), bit_depth) implies m * bps
                    + header_tail(bit_depth) <= u32::MAX by {
                if m > k {
                    assert(samples@.take(m)[k as int] == samples@[k as int]);
                }
                vstd::arithmetic::mul::lemma_mul_inequality(m, k as int, bps);
            }
        } else {
            assert(!(k * bps + header_tail(bit_depth) <= u32::MAX));
        }
    }
    r
}

/// A sample scaled to at most `pcm_max(bits)` in size is never refused as
/// too wide at the bit depths 8, 16 and 24: scaling a clamped full-scale
/// sample by `pcm_max` always gives a value that `hound` accepts.
pub proof fn lemma_scaled_sample_fits(bits: u16, s: i32)
    requires
        bits == 8 || bits == 16 || bits == 24,
        -(vstd::arithmetic::power2::pow2((bits - 1) as nat) - 1) <= s
            <= vstd::arithmetic::power2::pow2((bits - 1) as nat) - 1,
    ensures
        sample_fits(s, bits),
{
    vstd::arithmetic::power2::lemma2_to64();
}

/// `256^k`.
pub open spec fn byte_base(k: nat) -> int
    decreases k,
{
    if k == 0 { 1 } else { 256 * byte_base((k - 1) as nat) }
}

/// The unsigned little-endian value of `b`.
pub open spec fn read_le(b: Seq<u8>) -> int
    decreases b.len(),
{
    if b.len() == 0 { 0 } else { b[0] + 256 * read_le(b.drop_first()) }
}

/// The sample that a reader of the file takes from the bytes `b` of one
/// sample at `bits` bits: offset by 128 at 8 bits, two's complement above.
pub open spec fn sample_from_bytes(b: Seq<u8>, bits: u16) -> int {
    let u = read_le(b);
    let base = byte_base(bytes_per_sample(bits) as nat);
    if bits == 8 {
        u - 128
    } else if u >= base / 2 {
        u - base
    } else {
        u
    }
}

proof fn lemma_byte_base_pos(k: nat)
    ensures
        byte_base(k) > 0,
    decreases k,
{
    if k > 0 {
        lemma_byte_base_pos((k - 1) as nat);
    }
}

proof fn lemma_mod_step(x: int, m: int)
    requires
        m > 0,
    ensures
        x % (256 * m) == 256 * ((x / 256) % m) + x % 256,
{
    let q = x / 256;
    let r = x % 256;
    vstd::arithmetic::div_mod::lemma_fundamental_div_mod(x, 256);
    vstd::arithmetic::div_mod::lemma_mod_bound(x, 256);
    let q2 = q / m;
    let r2 = q % m;
    vstd::arithmetic::div_mod::lemma_fundamental_div_mod(q, m);
    vstd::arithmetic::div_mod::lemma_mod_bound(q, m);
    assert(x == q2 * (256 * m) + (256 * r2 + r)) by (nonlinear_arith)
        requires
            x == 256 * q + r,
            q == m * q2 + r2,
    ;
    vstd::arithmetic::div_mod::lemma_fundamental_div_mod_converse(x, 256 * m, q2, 256 * r2 + r);
}

/// Reading `le_bytes(v, k)` back gives `v` modulo `256^k`.
pub proof fn lemma_read_le_bytes(v: int, k: nat)
    ensures
        le_bytes(v, k).len() == k,
        read_le(le_bytes(v, k)) == v % byte_base(k),
    decreases k,
{
    if k > 0 {
        lemma_read_le_bytes(v / 256, (k - 1) as nat);
        lemma_byte_base_pos((k - 1) as nat);
        let b = le_bytes(v, k);
        assert(b.drop_first() =~= le_bytes(v / 256, (k - 1) as nat));
        vstd::arithmetic::div_mod::lemma_mod_bound(v, 256);
        lemma_mod_step(v, byte_base((k - 1) as nat));
    }
}

/// A stored sample reads back as itself.
pub proof fn lemma_sample_round_trip(s: i32, bits: u16)
    requires
        supported_bits(bits),
        sample_fits(s, bits),
    ensures
        sample_bytes(s, bits).len() == bytes_per_sample(bits),
        sample_from_bytes(sample_bytes(s, bits), bits) == s,
{
    let k = bytes_per_sample(bits) as nat;
    reveal_with_fuel(byte_base, 5);
    let base = byte_base(k);
    if bits == 8 {
        lemma_read_le_bytes(s + 128, 1);
        vstd::arithmetic::div_mod::lemma_fundamental_div_mod_converse(s + 128, 256, 0, s + 128);
    } else {
        lemma_read_le_bytes(s as int, k);
        assert(base == 2 * (sample_max(bits) + 1) && sample_min(bits) == -(sample_max(bits) + 1));
        if s >= 0 {
            vstd::arithmetic::div_mod::lemma_fundamental_div_mod_converse(s as int, base, 0, s as int);
        } else {
            vstd::arithmetic::div_mod::lemma_fundamental_div_mod_converse(s as int, base, -1, s + base);
        }
    }
}

/// The data of `n` samples takes `n` times the bytes of one sample.
pub proof fn lemma_pcm_data_len(samples: Seq<i32>, bits: u16)
    ensures
        pcm_data(samples, bits).len() == samples.len() * bytes_per_sample(bits),
    decreases samples.len(),
{
    if samples.len() > 0 {
        lemma_pcm_data_len(samples.drop_last(), bits);
        lemma_read_le_bytes(samples.last() + 128, 1);
        lemma_read_le_bytes(samples.last() as int, bytes_per_sample(bits) as nat);
        vstd::arithmetic::mul::lemma_mul_is_distributive_add_other_way(
            bytes_per_sample(bits),
            samples.len() - 1,
            1,
        );
    }
}

/// Sample `i` of the data sits at bytes `i * b` to `(i + 1) * b`, where `b`
/// is the bytes of one sample.
pub proof fn lemma_pcm_data_at(samples: Seq<i32>, bits: u16, i: int)
    requires
        0 <= i < samples.len(),
    ensures
        pcm_data(samples, bits).subrange(i * bytes_per_sample(bits), (i + 1) * bytes_per_sample(bits))
            == sample_bytes(samples[i], bits),
    decreases samples.len(),
{
    let bps = bytes_per_sample(bits);
    let n = samples.len() as int;
    let prefix = samples.drop_last();
    lemma_pcm_data_len(prefix, bits);
    lemma_pcm_data_len(samples, bits);
    lemma_read_le_bytes(samples.last() + 128, 1);
    lemma_read_le_bytes(samples.last() as int, bps as nat);
    vstd::arithmetic::mul::lemma_mul_is_distributive_add_other_way(bps, i, 1);
    vstd::arithmetic::mul::lemma_mul_is_distributive_add_other_way(bps, n - 1, 1);
    if i < n - 1 {
        lemma_pcm_data_at(prefix, bits, i);
        vstd::arithmetic::mul::lemma_mul_inequality(i + 1, n - 1, bps);
        assert(pcm_data(samples, bits).subrange(i * bps, (i + 1) * bps) =~= pcm_data(prefix, bits).subrange(
            i * bps,
            (i + 1) * bps,
        ));
    } else {
        assert(pcm_data(samples, bits).subrange(i * bps, (i + 1) * bps) =~= sample_bytes(samples[i], bits));
    }
}

/// The fields of the `fmt ` chunk, at their offsets within the chunk.
proof fn lemma_fmt_fields(sample_rate: u32, bits: u16)
    requires
        supported_bits(bits),
    ensures
        fmt_chunk(sample_rate, bits).len() == header_tail(bits) - 16,
        read_le(fmt_chunk(sample_rate, bits).subrange(4, 6)) == if bits > 16 { 0xfffeint } else { 1int },
        read_le(fmt_chunk(sample_rate, bits).subrange(6, 8)) == 1,
        read_le(fmt_chunk(sample_rate, bits).subrange(8, 12)) == sample_rate,
        read_le(fmt_chunk(sample_rate, bits).subrange(if bits > 16 { 22 } else { 18 }, if bits > 16 { 24 } else { 20 })) == bits,
        bits > 16 ==> fmt_chunk(sample_rate, bits).subrange(28, 44) == pcm_subformat_guid(),
{
    let c = fmt_chunk(sample_rate, bits);
    let bps = bytes_per_sample(bits);
    reveal_with_fuel(byte_base, 5);
    assert(byte_base(2) == 65536);
    assert(1int % 65536 == 1);
    assert(0xfffeint % 65536 == 0xfffe);
    assert(byte_base(4) == 4294967296);
    vstd::arithmetic::div_mod::lemma_fundamental_div_mod_converse(sample_rate as int, 4294967296, 0, sample_rate as int);
    vstd::arithmetic::div_mod::lemma_fundamental_div_mod_converse(bits as int, 65536, 0, bits as int);
    lemma_read_le_bytes(1, 2);
    lemma_read_le_bytes(0xfffe, 2);
    lemma_read_le_bytes(sample_rate as int, 4);
    lemma_read_le_bytes(sample_rate * bps, 4);
    lemma_read_le_bytes(bps, 2);
    lemma_read_le_bytes(bps * 8, 2);
    lemma_read_le_bytes(22, 2);
    lemma_read_le_bytes(bits as int, 2);
    lemma_read_le_bytes(16, 4);
    lemma_read_le_bytes(40, 4);
    lemma_read_le_bytes(1, 4);
    if bits > 16 {
        assert(c.subrange(4, 6) =~= le_bytes(0xfffe, 2));
        assert(c.subrange(22, 24) =~= le_bytes(bits as int, 2));
        assert(c.subrange(28, 44) =~= pcm_subformat_guid());
    } else {
        assert(c.subrange(4, 6) =~= le_bytes(1, 2));
        assert(c.subrange(18, 20) =~= le_bytes(bits as int, 2));
    }
    assert(c.subrange(6, 8) =~= le_bytes(1, 2));
    assert(c.subrange(8, 12) =~= le_bytes(sample_rate as int, 4));
}

proof fn lemma_subrange_of_middle(a: Seq<u8>, b: Seq<u8>, c: Seq<u8>, x: int, y: int)
    requires
        0 <= x <= y <= b.len(),
    ensures
        (a + b + c).subrange(a.len() + x, a.len() + y) == b.subrange(x, y),
{
    assert((a + b + c).subrange(a.len() + x, a.len() + y) =~= b.subrange(x, y));
}

/// The header of a WAV file reads back as what was encoded: `RIFF` with the
/// file size, `WAVE`, a `fmt ` chunk of integer PCM (the extensible tag
/// above 16 bits) with one channel, the sample rate and the bit depth, and
/// a `data` chunk of `data_len` bytes. It is 44 bytes long up to 16 bits
/// and 68 above.
#[verifier::rlimit(50)]
pub proof fn lemma_wav_header_reads_back(sample_rate: u32, bits: u16, data_len: int)
    requires
        supported_bits(bits),
        0 <= data_len,
        data_len + header_tail(bits) <= u32::MAX,
    ensures
        ({
            let h = wav_header(sample_rate, bits, data_len);
            &&& h.len() == header_tail(bits) + 8
            &&& h.subrange(0, 4) == riff_id()
            &&& read_le(h.subrange(4, 8)) == header_tail(bits) + data_len
            &&& h.subrange(8, 12) == wave_id()
            &&& h.subrange(12, 16) == fmt_id()
            &&& read_le(h.subrange(20, 22)) == if bits > 16 { 0xfffeint } else { 1int }
            &&& read_le(h.subrange(22, 24)) == 1
            &&& read_le(h.subrange(24, 28)) == sample_rate
            &&& read_le(h.subrange(if bits > 16 { 38 } else { 34 }, if bits > 16 { 40 } else { 36 })) == bits
            &&& bits > 16 ==> h.subrange(44, 60) == pcm_subformat_guid()
            &&& h.subrange(h.len() - 8, h.len() - 4) == data_id()
            &&& read_le(h.subrange(h.len() - 4, h.len() as int)) == data_len
        }),
{
    let h = wav_header(sample_rate, bits, data_len);
    let c = fmt_chunk(sample_rate, bits);
    let size = le_bytes(header_tail(bits) + data_len, 4);
    let len = le_bytes(data_len, 4);
    reveal_with_fuel(byte_base, 5);
    lemma_read_le_bytes(header_tail(bits) + data_len, 4);
    lemma_read_le_bytes(data_len, 4);
    lemma_fmt_fields(sample_rate, bits);
    assert(byte_base(4) == 4294967296);
    vstd::arithmetic::div_mod::lemma_fundamental_div_mod_converse(data_len, 4294967296, 0, data_len);
    vstd::arithmetic::div_mod::lemma_fundamental_div_mod_converse(
        header_tail(bits) + data_len,
        4294967296,
        0,
        header_tail(bits) + data_len,
    );
    let pre = riff_id() + size + wave_id() + fmt_id();
    let post = data_id() + len;
    assert(pre.len() == 16);
    assert(h =~= pre + c + post);
    assert(h.subrange(0, 4) =~= riff_id());
    assert(h.subrange(4, 8) =~= size);
    assert(h.subrange(8, 12) =~= wave_id());
    assert(h.subrange(12, 16) =~= fmt_id());
    lemma_subrange_of_middle(pre, c, post, 4, 6);
    lemma_subrange_of_middle(pre, c, post, 6, 8);
    lemma_subrange_of_middle(pre, c, post, 8, 12);
    if bits > 16 {
        lemma_subrange_of_middle(pre, c, post, 22, 24);
        lemma_subrange_of_middle(pre, c, post, 28, 44);
    } else {
        lemma_subrange_of_middle(pre, c, post, 18, 20);
    }
    assert(h.subrange(h.len() - 8, h.len() - 4) =~= data_id());
    assert(h.subrange(h.len() - 4, h.len() as int) =~= len);
}

/// The samples of a WAV file read back in order: the file is the header
/// followed by `b * n` bytes of data (`b` the bytes of one sample, `n` the
/// number of samples), and sample `i` is stored at bytes `i * b` to
/// `(i + 1) * b` after the header.
pub proof fn lemma_wav_samples_read_back(sample_rate: u32, bits: u16, samples: Seq<i32>)
    requires
        supported_bits(bits),
        all_fit(samples, bits),
    ensures
        ({
            let f = wav_file(sample_rate, bits, samples);
            let bps = bytes_per_sample(bits);
            let off = header_tail(bits) + 8;
            &&& f.len() == off + samples.len() * bps
            &&& f.subrange(0, off) == wav_header(sample_rate, bits, samples.len() * bps)
            &&& forall|i: int|
                0 <= i < samples.len() ==> #[trigger] sample_from_bytes(
                    f.subrange(off + i * bps, off + (i + 1) * bps),
                    bits,
                ) == samples[i]
        }),
{
    let f = wav_file(sample_rate, bits, samples);
    let bps = bytes_per_sample(bits);
    let off = header_tail(bits) + 8;
    let n = samples.len() as int;
    let data = pcm_data(samples, bits);
    lemma_pcm_data_len(samples, bits);
    let h = wav_header(sample_rate, bits, data.len() as int);
    lemma_read_le_bytes(header_tail(bits) + data.len(), 4);
    lemma_read_le_bytes(data.len() as int, 4);
    lemma_fmt_chunk_len(sample_rate, bits);
    assert(h.len() == off);
    assert(f.subrange(0, off) =~= h);
    assert forall|i: int|
        0 <= i < samples.len() implies #[trigger] sample_from_bytes(
        f.subrange(off + i * bps, off + (i + 1) * bps),
        bits,
    ) == samples[i] by {
        lemma_pcm_data_at(samples, bits, i);
        vstd::arithmetic::mul::lemma_mul_is_distributive_add_other_way(bps, i, 1);
        vstd::arithmetic::mul::lemma_mul_inequality(i + 1, n, bps);
        assert(f.subrange(off + i * bps, off + (i + 1) * bps) =~= data.subrange(i * bps, (i + 1) * bps));
        lemma_sample_round_trip(samples[i], bits);
    }
}

proof fn lemma_fmt_chunk_len(sample_rate: u32, bits: u16)
    ensures
        fmt_chunk(sample_rate, bits).len() == header_tail(bits) - 16,
{
    let bps = bytes_per_sample(bits);
    lemma_read_le_bytes(1, 2);
    lemma_read_le_bytes(0xfffe, 2);
    lemma_read_le_bytes(sample_rate as int, 4);
    lemma_read_le_bytes(sample_rate * bps, 4);
    lemma_read_le_bytes(bps, 2);
    lemma_read_le_bytes(bps * 8, 2);
    lemma_read_le_bytes(22, 2);
    lemma_read_le_bytes(bits as int, 2);
    lemma_read_le_bytes(16, 4);
    lemma_read_le_bytes(40, 4);
    lemma_read_le_bytes(1, 4);
}

/// Whether `f` reads back as a WAV file of one channel of integer `samples`
/// at `sample_rate` and `bits` bits: `RIFF` with the size of the rest,
/// `WAVE`, a `fmt ` chunk with the integer-PCM tag (the extensible tag
/// above 16 bits), one channel, the sample rate and the bit depth, a `data`
/// chunk as long as the samples, and each sample, decoded from its bytes,
/// in order after the header.
pub open spec fn reads_back_as(f: Seq<u8>, sample_rate: u32, bits: u16, samples: Seq<i32>) -> bool {
    let bps = bytes_per_sample(bits);
    let off = header_tail(bits) + 8;
    &&& f.len() == off + samples.len() * bps
    &&& f.subrange(0, 4) == riff_id()
    &&& read_le(f.subrange(4, 8)) == f.len() - 8
    &&& f.subrange(8, 12) == wave_id()
    &&& f.subrange(12, 16) == fmt_id()
    &&& read_le(f.subrange(20, 22)) == if bits > 16 { 0xfffeint } else { 1int }
    &&& read_le(f.subrange(22, 24)) == 1
    &&& read_le(f.subrange(24, 28)) == sample_rate
    &&& read_le(f.subrange(if bits > 16 { 38 } else { 34 }, if bits > 16 { 40 } else { 36 })) == bits
    &&& f.subrange(off - 8, off - 4) == data_id()
    &&& read_le(f.subrange(off - 4, off)) == samples.len() * bps
    &&& forall|i: int|
        0 <= i < samples.len() ==> #[trigger] sample_from_bytes(f.subrange(off + i * bps, off + (i + 1) * bps), bits)
            == samples[i]
}

proof fn lemma_subrange_in_prefix(f: Seq<u8>, h: Seq<u8>, a: int, b: int)
    requires
        h.len() <= f.len(),
        f.subrange(0, h.len() as int) == h,
        0 <= a <= b <= h.len(),
    ensures
        f.subrange(a, b) == h.subrange(a, b),
{
    assert(f.subrange(a, b) =~= f.subrange(0, h.len() as int).subrange(a, b));
}

/// The WAV file of fitting samples reads back as those samples, in one
/// channel, at the sample rate and the bit depth it was made with.
pub proof fn lemma_wav_file_reads_back(sample_rate: u32, bits: u16, samples: Seq<i32>)
    requires
        supported_bits(bits),
        all_fit(samples, bits),
        samples.len() * bytes_per_sample(bits) + header_tail(bits) <= u32::MAX,
    ensures
        reads_back_as(wav_file(sample_rate, bits, samples), sample_rate, bits, samples),
{
    let f = wav_file(sample_rate, bits, samples);
    let bps = bytes_per_sample(bits);
    let off = header_tail(bits) + 8;
    let n = samples.len() as int;
    lemma_wav_samples_read_back(sample_rate, bits, samples);
    vstd::arithmetic::mul::lemma_mul_nonnegative(n, bps);
    lemma_wav_header_reads_back(sample_rate, bits, n * bps);
    let h = wav_header(sample_rate, bits, n * bps);
    lemma_subrange_in_prefix(f, h, 0, 4);
    lemma_subrange_in_prefix(f, h, 4, 8);
    lemma_subrange_in_prefix(f, h, 8, 12);
    lemma_subrange_in_prefix(f, h, 12, 16);
    lemma_subrange_in_prefix(f, h, 20, 22);
    lemma_subrange_in_prefix(f, h, 22, 24);
    lemma_subrange_in_prefix(f, h, 24, 28);
    if bits > 16 {
        lemma_subrange_in_prefix(f, h, 38, 40);
    } else {
        lemma_subrange_in_prefix(f, h, 34, 36);
    }
    lemma_subrange_in_prefix(f, h, off - 8, off - 4);
    lemma_subrange_in_prefix(f, h, off - 4, off);
}

/// Encodes `samples` as a WAV file of one channel of integer samples at
/// `sample_rate` and `bit_depth` bits, with `hound`.
pub fn encode_wav(samples: &Vec<i32>, sample_rate: u32, bit_depth: u16) -> (r: Result<Vec<u8>, String>)
    requires
        encodable(samples@, sample_rate, bit_depth),
    ensures
        result_view(r) == encode_result(samples@, sample_rate, bit_depth),
        supported_bits(bit_depth) && all_fit(samples@, bit_depth) ==> r is Ok,
        r is Ok ==> reads_back_as(r->Ok_0@, sample_rate, bit_depth, samples@),
{
    let mut buf = new_buffer(Vec::new());
    let spec = hound::WavSpec {
        channels: 1,
        sample_rate,
        bits_per_sample: bit_depth,
        sample_format: hound::SampleFormat::Int,
    };
    let mut writer = match open_writer(&mut buf, spec) {
        Ok(w) => w,
        Err(t) => {
            return Err(prefixed("WAV writer init failed: ", &t));
        },
    };
    let mut i: usize = 0;
    while i < samples.len()
        invariant
            i <= samples@.len(),
            encodable(samples@, sample_rate, bit_depth),
            supported_bits(bit_depth),
            pcm_writer_rate(writer) == sample_rate,
            pcm_writer_bits(writer) == bit_depth,
            pcm_writer_samples(writer) == samples@.take(i as int),
            pcm_writer_final_bytes(writer) == cursor_bytes(after_borrow(buf)),
            forall|j: int| 0 <= j < i ==> sample_fits(#[trigger] samples@[j], bit_depth),
        decreases samples.len() - i,
    {
        proof {
            assert(all_fit(samples@.take(i as int), bit_depth));
            if sample_fits(samples@[i as int], bit_depth) {
                assert(all_fit(samples@.take(i + 1), bit_depth));
            }
        }
        match write_sample(&mut writer, samples[i]) {
            Ok(()) => {},
            Err(t) => {
                proof {
                    assert(!all_fit(samples@, bit_depth)) by {
                        assert(!sample_fits(samples@[i as int], bit_depth));
                    }
                }
                return Err(prefixed("WAV write failed: ", &t));
            },
        }
        assert(samples@.take(i as int).push(samples@[i as int]) == samples@.take(i + 1));
        i = i + 1;
    }
    assert(samples@.take(i as int) == samples@);
    assert(all_fit(samples@.take(i as int), bit_depth));
    proof {
        lemma_wav_file_reads_back(sample_rate, bit_depth, samples@);
    }
    match finalize(writer) {
        Ok(()) => {},
        Err(t) => {
            return Err(prefixed("WAV finalize failed: ", &t));
        },
    }
    Ok(into_bytes(buf))
}

} // verus!
