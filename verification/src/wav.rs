//! Encoding and decoding of the framed PCM chunks the pipeline carries.
//!
//! Each chunk is a fixed 44-byte stream header followed by little-endian
//! integer PCM frames.  The pipeline carries integer PCM only; a capture
//! source that delivers floating-point frames is quantized to 16-bit
//! integer frames at the capture edge, before a chunk is built.
//!
//! The decoder turns a drained batch back into samples on a common
//! 16-bit fixed-point scale: 8-bit samples are widened, 32-bit samples
//! narrowed toward zero.  Because only the first chunk of a batch keeps
//! its header, the header's stored data length describes only that first
//! chunk; the decoder therefore reads samples to the end of the batch
//! and ignores the stored length.

use vstd::arithmetic::div_mod::{
    lemma_div_by_multiple, lemma_div_denominator, lemma_div_is_ordered, lemma_fundamental_div_mod,
    lemma_mod_multiples_basic, lemma_small_mod,
};
use vstd::arithmetic::mul::{
    lemma_mul_basics, lemma_mul_inequality, lemma_mul_is_distributive_add_other_way,
    lemma_mul_nonnegative,
};
use vstd::prelude::*;
use crate::buffer::{appended, AccumulationBuffer, CHUNK_HEADER_LEN};

verus! {

/// Format descriptor of a PCM stream.
#[derive(Clone, Copy, PartialEq, Eq, Structural, Debug)]
pub struct WavFormat {
    /// Number of interleaved channels.
    pub channels: u16,
    /// Frames per second, in Hz.
    pub sample_rate: u32,
    /// Width of one integer sample: 8, 16 or 32.
    pub bits_per_sample: u16,
}

/// A format the codec can frame: a supported sample width, at least one
/// channel, and derived header fields that fit their 16- and 32-bit
/// slots.
pub open spec fn wav_format_wf(f: WavFormat) -> bool {
    &&& (f.bits_per_sample == 8 || f.bits_per_sample == 16 || f.bits_per_sample == 32)
    &&& f.channels >= 1
    &&& f.channels as int * (f.bits_per_sample as int / 8) <= u16::MAX as int
    &&& f.sample_rate as int * f.channels as int * (f.bits_per_sample as int / 8) <= u32::MAX as int
}

/// Byte `k` of the little-endian encoding of `x`.
pub open spec fn byte0(x: int) -> u8 {
    (x % 256) as u8
}

pub open spec fn byte1(x: int) -> u8 {
    (x / 256 % 256) as u8
}

pub open spec fn byte2(x: int) -> u8 {
    (x / 65536 % 256) as u8
}

pub open spec fn byte3(x: int) -> u8 {
    (x / 16777216 % 256) as u8
}

/// The unsigned 16-bit value stored little-endian at offset `i`.
pub open spec fn le16(b: Seq<u8>, i: int) -> int {
    b[i] + 256 * b[i + 1]
}

/// The unsigned 32-bit value stored little-endian at offset `i`.
pub open spec fn le32(b: Seq<u8>, i: int) -> int {
    b[i] + 256 * b[i + 1] + 65536 * b[i + 2] + 16777216 * b[i + 3]
}

/// The 44-byte stream header for `data_len` bytes of PCM data.
pub open spec fn header_bytes(f: WavFormat, data_len: int) -> Seq<u8> {
    let bytes_per_sample = f.bits_per_sample as int / 8;
    let byte_rate = f.sample_rate as int * f.channels as int * bytes_per_sample;
    let block_align = f.channels as int * bytes_per_sample;
    seq![
        0x52u8,
        0x49u8,
        0x46u8,
        0x46u8,
        byte0(36 + data_len),
        byte1(36 + data_len),
        byte2(36 + data_len),
        byte3(36 + data_len),
        0x57u8,
        0x41u8,
        0x56u8,
        0x45u8,
        0x66u8,
        0x6du8,
        0x74u8,
        0x20u8,
        16u8,
        0u8,
        0u8,
        0u8,
        1u8,
        0u8,
        byte0(f.channels as int),
        byte1(f.channels as int),
        byte0(f.sample_rate as int),
        byte1(f.sample_rate as int),
        byte2(f.sample_rate as int),
        byte3(f.sample_rate as int),
        byte0(byte_rate),
        byte1(byte_rate),
        byte2(byte_rate),
        byte3(byte_rate),
        byte0(block_align),
        byte1(block_align),
        byte0(f.bits_per_sample as int),
        byte1(f.bits_per_sample as int),
        0x64u8,
        0x61u8,
        0x74u8,
        0x61u8,
        byte0(data_len),
        byte1(data_len),
        byte2(data_len),
        byte3(data_len),
    ]
}

/// A sample representable at the given width.
pub open spec fn sample_fits(v: int, bits: int) -> bool {
    if bits == 8 {
        -128 <= v < 128
    } else if bits == 16 {
        -32768 <= v < 32768
    } else {
        i32::MIN <= v <= i32::MAX
    }
}

/// The two's-complement image of `v` in a field of `m` values.
pub open spec fn unsigned_repr(v: int, m: int) -> int {
    if v >= 0 {
        v
    } else {
        v + m
    }
}

/// The little-endian bytes of one sample at the given width.
pub open spec fn sample_bytes(v: int, bits: int) -> Seq<u8> {
    if bits == 8 {
        seq![byte0(unsigned_repr(v, 256))]
    } else if bits == 16 {
        seq![byte0(unsigned_repr(v, 65536)), byte1(unsigned_repr(v, 65536))]
    } else {
        seq![
            byte0(unsigned_repr(v, 4294967296)),
            byte1(unsigned_repr(v, 4294967296)),
            byte2(unsigned_repr(v, 4294967296)),
            byte3(unsigned_repr(v, 4294967296)),
        ]
    }
}

/// The little-endian bytes of a sample sequence at the given width.
pub open spec fn samples_bytes(samples: Seq<i32>, bits: int) -> Seq<u8>
    decreases samples.len(),
{
    if samples.len() == 0 {
        Seq::empty()
    } else {
        samples_bytes(samples.drop_last(), bits) + sample_bytes(samples.last() as int, bits)
    }
}

/// One encoded chunk: the stream header followed by the sample bytes.
pub open spec fn encode_spec(f: WavFormat, samples: Seq<i32>) -> Seq<u8> {
    header_bytes(f, samples.len() * (f.bits_per_sample as int / 8)) + samples_bytes(
        samples,
        f.bits_per_sample as int,
    )
}

/// Why a batch of bytes could not be decoded.
#[derive(Clone, Copy, PartialEq, Eq, Structural, Debug)]
pub enum DecodeError {
    /// Shorter than one stream header.
    TooShort,
    /// A header magic tag is missing.
    BadMagic,
    /// Not integer PCM of a supported sample width.
    UnsupportedFormat,
    /// The PCM data ends inside a sample.
    RaggedData,
}

/// The four magic tags of the fixed header stand at their offsets.
pub open spec fn has_header_magic(b: Seq<u8>) -> bool {
    &&& b[0] == 0x52 && b[1] == 0x49 && b[2] == 0x46 && b[3] == 0x46
    &&& b[8] == 0x57 && b[9] == 0x41 && b[10] == 0x56 && b[11] == 0x45
    &&& b[12] == 0x66 && b[13] == 0x6d && b[14] == 0x74 && b[15] == 0x20
    &&& b[36] == 0x64 && b[37] == 0x61 && b[38] == 0x74 && b[39] == 0x61
}

/// The format the header declares.
pub open spec fn parsed_format(b: Seq<u8>) -> WavFormat {
    WavFormat {
        channels: le16(b, 22) as u16,
        sample_rate: le32(b, 24) as u32,
        bits_per_sample: le16(b, 34) as u16,
    }
}

/// The header declares integer PCM of a supported width.
pub open spec fn format_supported(b: Seq<u8>) -> bool {
    le16(b, 20) == 1 && (le16(b, 34) == 8 || le16(b, 34) == 16 || le16(b, 34) == 32)
}

/// The batch decodes: long enough, magic present, a supported format,
/// and whole samples to the end.
pub open spec fn decode_ok(b: Seq<u8>) -> bool {
    &&& b.len() >= CHUNK_HEADER_LEN
    &&& has_header_magic(b)
    &&& format_supported(b)
    &&& (b.len() - CHUNK_HEADER_LEN as int) % (le16(b, 34) / 8) == 0
}

/// The first malformation the decoder finds in a batch that does not
/// decode.
pub open spec fn decode_error_of(b: Seq<u8>) -> DecodeError {
    if b.len() < CHUNK_HEADER_LEN {
        DecodeError::TooShort
    } else if !has_header_magic(b) {
        DecodeError::BadMagic
    } else if !format_supported(b) {
        DecodeError::UnsupportedFormat
    } else {
        DecodeError::RaggedData
    }
}

/// The signed value of the `m`-value two's-complement image `u`.
pub open spec fn signed_value(u: int, m: int) -> int {
    if u < m / 2 {
        u
    } else {
        u - m
    }
}

/// Integer division rounding toward zero.
pub open spec fn div_toward_zero(a: int, d: int) -> int {
    if a >= 0 {
        a / d
    } else {
        -((-a) / d)
    }
}

/// The raw signed sample `i` of the PCM data at the given width.
pub open spec fn raw_sample(data: Seq<u8>, bits: int, i: int) -> int {
    if bits == 8 {
        signed_value(data[i] as int, 256)
    } else if bits == 16 {
        signed_value(le16(data, 2 * i), 65536)
    } else {
        signed_value(le32(data, 4 * i), 4294967296)
    }
}

/// Sample `i` on the common 16-bit fixed-point scale: 8-bit samples are
/// widened by 256, 32-bit samples narrowed by 65536 toward zero.
pub open spec fn fixed_sample(data: Seq<u8>, bits: int, i: int) -> int {
    if bits == 8 {
        raw_sample(data, bits, i) * 256
    } else if bits == 16 {
        raw_sample(data, bits, i)
    } else {
        div_toward_zero(raw_sample(data, bits, i), 65536)
    }
}

/// Number of whole samples in a decodable batch.
pub open spec fn decoded_len(b: Seq<u8>) -> int {
    (b.len() - CHUNK_HEADER_LEN as int) / (le16(b, 34) / 8)
}

/// The fixed-point samples of a decodable batch.
pub open spec fn decoded_samples(b: Seq<u8>) -> Seq<i16> {
    Seq::new(
        decoded_len(b) as nat,
        |i: int| fixed_sample(b.skip(CHUNK_HEADER_LEN as int), le16(b, 34), i) as i16,
    )
}

/// A decoded batch: its declared format and its samples on the common
/// fixed-point scale.
#[derive(Debug)]
pub struct DecodedChunk {
    pub format: WavFormat,
    pub samples: Vec<i16>,
}

/// Decode a drained batch.  Succeeds exactly on well-formed integer PCM
/// batches; each error names the first malformation found.
pub fn decode_chunk(bytes: &[u8]) -> (r: Result<DecodedChunk, DecodeError>)
    ensures
        r is Ok <==> decode_ok(bytes@),
        r is Err ==> r == Err::<DecodedChunk, DecodeError>(decode_error_of(bytes@)),
        r matches Ok(d) ==> d.format == parsed_format(bytes@) && d.samples@ == decoded_samples(
            bytes@,
        ),
        r == Err::<DecodedChunk, DecodeError>(DecodeError::TooShort) <==> bytes@.len()
            < CHUNK_HEADER_LEN,
        r == Err::<DecodedChunk, DecodeError>(DecodeError::BadMagic) <==> bytes@.len()
            >= CHUNK_HEADER_LEN && !has_header_magic(bytes@),
        r == Err::<DecodedChunk, DecodeError>(DecodeError::UnsupportedFormat) <==> bytes@.len()
            >= CHUNK_HEADER_LEN && has_header_magic(bytes@) && !format_supported(bytes@),
        r == Err::<DecodedChunk, DecodeError>(DecodeError::RaggedData) <==> bytes@.len()
            >= CHUNK_HEADER_LEN && has_header_magic(bytes@) && format_supported(bytes@) && (
        bytes@.len() - CHUNK_HEADER_LEN as int) % (le16(bytes@, 34) / 8) != 0,
{
    if bytes.len() < CHUNK_HEADER_LEN {
        return Err(DecodeError::TooShort);
    }
    let magic_ok = bytes[0] == 0x52 && bytes[1] == 0x49 && bytes[2] == 0x46 && bytes[3] == 0x46
        && bytes[8] == 0x57 && bytes[9] == 0x41 && bytes[10] == 0x56 && bytes[11] == 0x45
        && bytes[12] == 0x66 && bytes[13] == 0x6d && bytes[14] == 0x74 && bytes[15] == 0x20
        && bytes[36] == 0x64 && bytes[37] == 0x61 && bytes[38] == 0x74 && bytes[39] == 0x61;
    if !magic_ok {
        return Err(DecodeError::BadMagic);
    }
    let format_code: u32 = bytes[20] as u32 + 256 * (bytes[21] as u32);
    let bits: u32 = bytes[34] as u32 + 256 * (bytes[35] as u32);
    if !(format_code == 1 && (bits == 8 || bits == 16 || bits == 32)) {
        return Err(DecodeError::UnsupportedFormat);
    }
    let channels: u16 = bytes[22] as u16 + 256 * (bytes[23] as u16);
    let sample_rate: u32 = bytes[24] as u32 + 256 * (bytes[25] as u32) + 65536 * (
    bytes[26] as u32) + 16777216 * (bytes[27] as u32);
    let bytes_per_sample: usize = (bits / 8) as usize;
    let data_len: usize = bytes.len() - CHUNK_HEADER_LEN;
    if data_len % bytes_per_sample != 0 {
        return Err(DecodeError::RaggedData);
    }
    let n: usize = data_len / bytes_per_sample;
    proof {
        lemma_fundamental_div_mod(data_len as int, bytes_per_sample as int);
        vstd::arithmetic::mul::lemma_mul_is_commutative(bytes_per_sample as int, n as int);
    }
    let mut samples: Vec<i16> = Vec::new();
    let mut i: usize = 0;
    while i < n
        invariant
            0 <= i as int <= n as int,
            bytes@.len() == CHUNK_HEADER_LEN as int + data_len as int,
            data_len as int + CHUNK_HEADER_LEN as int <= usize::MAX as int,
            bytes_per_sample as int == bits as int / 8,
            bits == 8 || bits == 16 || bits == 32,
            data_len as int == n as int * bytes_per_sample as int,
            samples@.len() == i as int,
            forall|k: int|
                0 <= k < i as int ==> samples@[k] as int == fixed_sample(
                    bytes@.skip(CHUNK_HEADER_LEN as int),
                    bits as int,
                    k,
                ),
        decreases n as int - i as int,
    {
        proof {
            lemma_mul_inequality(i as int + 1, n as int, bytes_per_sample as int);
            lemma_mul_is_distributive_add_other_way(bytes_per_sample as int, i as int, 1);
            assert((i as int + 1) * (bytes_per_sample as int) == i as int * (bytes_per_sample
                as int) + bytes_per_sample as int);
        }
        let base: usize = CHUNK_HEADER_LEN + i * bytes_per_sample;
        let v: i16 = if bits == 8 {
            let raw = bytes[base];
            let sv: i16 = if raw < 128 {
                raw as i16
            } else {
                raw as i16 - 256
            };
            sv * 256
        } else if bits == 16 {
            let u: u32 = bytes[base] as u32 + 256 * (bytes[base + 1] as u32);
            if u < 32768 {
                u as i16
            } else {
                (u as i32 - 65536) as i16
            }
        } else {
            let u: u32 = bytes[base] as u32 + 256 * (bytes[base + 1] as u32) + 65536 * (
            bytes[base + 2] as u32) + 16777216 * (bytes[base + 3] as u32);
            if u < 2147483648 {
                ((u / 65536) as u16) as i16
            } else {
                let neg: u32 = ((4294967296u64 - u as u64) as u32);
                (-((neg / 65536) as i32)) as i16
            }
        };
        proof {
            let data = bytes@.skip(CHUNK_HEADER_LEN as int);
            assert(v as int == fixed_sample(data, bits as int, i as int));
        }
        samples.push(v);
        i = i + 1;
    }
    proof {
        assert(samples@ =~= decoded_samples(bytes@));
    }
    Ok(
        DecodedChunk {
            format: WavFormat { channels, sample_rate, bits_per_sample: bits as u16 },
            samples,
        },
    )
}

/// Build one encoded chunk: the stream header, then each sample's bytes
/// at the format's width, little-endian, in order.
#[verifier::rlimit(80)]
pub fn encode_chunk(f: WavFormat, samples: &Vec<i32>) -> (out: Vec<u8>)
    requires
        wav_format_wf(f),
        forall|i: int|
            0 <= i < samples@.len() ==> sample_fits(
                #[trigger] samples@[i] as int,
                f.bits_per_sample as int,
            ),
        samples@.len() * (f.bits_per_sample as int / 8) <= u32::MAX as int - 36,
    ensures
        out@ == encode_spec(f, samples@),
        out@.len() >= CHUNK_HEADER_LEN,
{
    let bits: u16 = f.bits_per_sample;
    let bps: u32 = (bits / 8) as u32;
    let dl64: u64 = samples.len() as u64 * bps as u64;
    let data_len: u32 = dl64 as u32;
    let riff_size: u32 = 36 + data_len;
    proof {
        assert((f.sample_rate as int * f.channels as int) * (bps as int) <= ((u32::MAX as int)
            * (u16::MAX as int)) * 4 && f.sample_rate as int * f.channels as int <= (u32::MAX
            as int) * (u16::MAX as int)) by (nonlinear_arith)
            requires
                0 <= f.sample_rate as int <= u32::MAX as int,
                0 <= f.channels as int <= u16::MAX as int,
                0 <= bps as int <= 4,
        ;
    }
    let byte_rate64: u64 = (f.sample_rate as u64 * f.channels as u64) * bps as u64;
    let byte_rate: u32 = byte_rate64 as u32;
    let block_align: u32 = f.channels as u32 * bps;
    let mut out: Vec<u8> = Vec::new();
    out.push(0x52);
    out.push(0x49);
    out.push(0x46);
    out.push(0x46);
    out.push((riff_size % 256) as u8);
    out.push((riff_size / 256 % 256) as u8);
    out.push((riff_size / 65536 % 256) as u8);
    out.push((riff_size / 16777216 % 256) as u8);
    out.push(0x57);
    out.push(0x41);
    out.push(0x56);
    out.push(0x45);
    out.push(0x66);
    out.push(0x6d);
    out.push(0x74);
    out.push(0x20);
    out.push(16);
    out.push(0);
    out.push(0);
    out.push(0);
    out.push(1);
    out.push(0);
    out.push((f.channels as u32 % 256) as u8);
    out.push((f.channels as u32 / 256 % 256) as u8);
    out.push((f.sample_rate % 256) as u8);
    out.push((f.sample_rate / 256 % 256) as u8);
    out.push((f.sample_rate / 65536 % 256) as u8);
    out.push((f.sample_rate / 16777216 % 256) as u8);
    out.push((byte_rate % 256) as u8);
    out.push((byte_rate / 256 % 256) as u8);
    out.push((byte_rate / 65536 % 256) as u8);
    out.push((byte_rate / 16777216 % 256) as u8);
    out.push((block_align % 256) as u8);
    out.push((block_align / 256 % 256) as u8);
    out.push((bits as u32 % 256) as u8);
    out.push((bits as u32 / 256 % 256) as u8);
    out.push(0x64);
    out.push(0x61);
    out.push(0x74);
    out.push(0x61);
    out.push((data_len % 256) as u8);
    out.push((data_len / 256 % 256) as u8);
    out.push((data_len / 65536 % 256) as u8);
    out.push((data_len / 16777216 % 256) as u8);
    proof {
        assert(out@ =~= header_bytes(f, samples@.len() * (f.bits_per_sample as int / 8)));
    }
    let ghost header = out@;
    let n = samples.len();
    let mut i: usize = 0;
    while i < n
        invariant
            0 <= i as int <= n as int,
            n == samples@.len(),
            bits == f.bits_per_sample,
            bits == 8 || bits == 16 || bits == 32,
            forall|k: int|
                0 <= k < samples@.len() ==> sample_fits(#[trigger] samples@[k] as int, bits as int),
            out@ == header + samples_bytes(samples@.subrange(0, i as int), bits as int),
        decreases n as int - i as int,
    {
        let v: i32 = samples[i];
        if bits == 8 {
            let u: u8 = if v >= 0 {
                v as u8
            } else {
                (v + 256) as u8
            };
            out.push(u);
        } else if bits == 16 {
            let u: u16 = if v >= 0 {
                v as u16
            } else {
                (v + 65536) as u16
            };
            out.push((u % 256) as u8);
            out.push((u as u32 / 256 % 256) as u8);
        } else {
            let u: u32 = if v >= 0 {
                v as u32
            } else {
                (v as i64 + 4294967296i64) as u32
            };
            out.push((u % 256) as u8);
            out.push((u / 256 % 256) as u8);
            out.push((u / 65536 % 256) as u8);
            out.push((u / 16777216 % 256) as u8);
        }
        proof {
            assert(samples@.subrange(0, i + 1).drop_last() =~= samples@.subrange(0, i as int));
            assert(samples@.subrange(0, i + 1).last() == samples@[i as int]);
            assert(out@ =~= header + samples_bytes(samples@.subrange(0, i + 1), bits as int));
        }
        i = i + 1;
    }
    proof {
        assert(samples@.subrange(0, samples@.len() as int) =~= samples@);
        assert(out@ =~= encode_spec(f, samples@));
    }
    out
}

/// A raw sample's value on the common 16-bit fixed-point scale.
pub open spec fn rescaled(v: int, bits: int) -> int {
    if bits == 8 {
        v * 256
    } else if bits == 16 {
        v
    } else {
        div_toward_zero(v, 65536)
    }
}

proof fn lemma_le16_recompose(x: int)
    requires
        0 <= x < 65536,
    ensures
        byte0(x) as int + 256 * (byte1(x) as int) == x,
{
    lemma_fundamental_div_mod(x, 256);
    lemma_div_is_ordered(x, 65535, 256);
    lemma_small_mod((x / 256) as nat, 256);
}

proof fn lemma_le32_recompose(x: int)
    requires
        0 <= x < 4294967296,
    ensures
        byte0(x) as int + 256 * (byte1(x) as int) + 65536 * (byte2(x) as int) + 16777216 * (
        byte3(x) as int) == x,
{
    lemma_fundamental_div_mod(x, 256);
    lemma_fundamental_div_mod(x / 256, 256);
    lemma_div_denominator(x, 256, 256);
    lemma_fundamental_div_mod(x / 65536, 256);
    lemma_div_denominator(x, 65536, 256);
    lemma_div_is_ordered(x, 4294967295, 16777216);
    lemma_small_mod((x / 16777216) as nat, 256);
}

proof fn lemma_samples_bytes_len(samples: Seq<i32>, bits: int)
    requires
        bits == 8 || bits == 16 || bits == 32,
    ensures
        samples_bytes(samples, bits).len() == samples.len() * (bits / 8),
    decreases samples.len(),
{
    if samples.len() == 0 {
        lemma_mul_basics(bits / 8);
    } else {
        lemma_samples_bytes_len(samples.drop_last(), bits);
        lemma_mul_is_distributive_add_other_way(bits / 8, samples.len() as int - 1, 1);
        lemma_mul_basics(bits / 8);
    }
}

proof fn lemma_samples_bytes_index(samples: Seq<i32>, bits: int, i: int, k: int)
    requires
        bits == 8 || bits == 16 || bits == 32,
        0 <= i < samples.len(),
        0 <= k < bits / 8,
    ensures
        samples_bytes(samples, bits)[i * (bits / 8) + k] == sample_bytes(
            samples[i] as int,
            bits,
        )[k],
    decreases samples.len(),
{
    lemma_mul_nonnegative(i, bits / 8);
    lemma_samples_bytes_len(samples, bits);
    lemma_samples_bytes_len(samples.drop_last(), bits);
    if i == samples.len() - 1 {
        assert(samples.last() == samples[i]);
    } else {
        lemma_samples_bytes_index(samples.drop_last(), bits, i, k);
        lemma_mul_inequality(i + 1, samples.len() as int - 1, bits / 8);
        lemma_mul_is_distributive_add_other_way(bits / 8, i, 1);
        assert(samples.drop_last()[i] == samples[i]);
    }
}

/// Law: a chunk the encoder builds decodes again, to the same format
/// and to the fixed-point image of the samples it was built from.
pub proof fn lemma_encode_then_decode(f: WavFormat, samples: Seq<i32>)
    requires
        wav_format_wf(f),
        forall|i: int|
            0 <= i < samples.len() ==> sample_fits(
                #[trigger] samples[i] as int,
                f.bits_per_sample as int,
            ),
        samples.len() * (f.bits_per_sample as int / 8) <= u32::MAX as int - 36,
    ensures
        decode_ok(encode_spec(f, samples)),
        parsed_format(encode_spec(f, samples)) == f,
        decoded_samples(encode_spec(f, samples)).len() == samples.len(),
        forall|i: int|
            0 <= i < samples.len() ==> decoded_samples(encode_spec(f, samples))[i] as int
                == rescaled(#[trigger] samples[i] as int, f.bits_per_sample as int),
{
    let bits = f.bits_per_sample as int;
    let bps = bits / 8;
    let dl = samples.len() * bps;
    let enc = encode_spec(f, samples);
    let h = header_bytes(f, dl);
    let sb = samples_bytes(samples, bits);
    lemma_mul_nonnegative(samples.len() as int, bps);
    lemma_samples_bytes_len(samples, bits);
    assert(enc.len() == 44 + dl);
    lemma_le16_recompose(bits);
    lemma_le16_recompose(f.channels as int);
    lemma_le32_recompose(f.sample_rate as int);
    assert(le16(enc, 20) == 1);
    assert(le16(enc, 34) == bits);
    assert(le16(enc, 22) == f.channels as int);
    assert(le32(enc, 24) == f.sample_rate as int);
    assert(has_header_magic(enc));
    lemma_mod_multiples_basic(samples.len() as int, bps);
    assert(decode_ok(enc));
    assert(parsed_format(enc) == f);
    lemma_div_by_multiple(samples.len() as int, bps);
    assert(decoded_len(enc) == samples.len());
    let data = enc.skip(44);
    assert(data =~= sb);
    assert forall|i: int| 0 <= i < samples.len() implies decoded_samples(enc)[i] as int
        == rescaled(samples[i] as int, bits) by {
        let v = samples[i] as int;
        lemma_mul_nonnegative(i, bps);
        if bits == 8 {
            lemma_samples_bytes_index(samples, bits, i, 0);
            lemma_mul_basics(i);
            let u = unsigned_repr(v, 256);
            assert(data[i] as int == u);
            assert(signed_value(u, 256) == v);
        } else if bits == 16 {
            lemma_samples_bytes_index(samples, bits, i, 0);
            lemma_samples_bytes_index(samples, bits, i, 1);
            let u = unsigned_repr(v, 65536);
            lemma_le16_recompose(u);
            assert(le16(data, 2 * i) == u);
            assert(signed_value(u, 65536) == v);
        } else {
            lemma_samples_bytes_index(samples, bits, i, 0);
            lemma_samples_bytes_index(samples, bits, i, 1);
            lemma_samples_bytes_index(samples, bits, i, 2);
            lemma_samples_bytes_index(samples, bits, i, 3);
            let u = unsigned_repr(v, 4294967296);
            lemma_le32_recompose(u);
            assert(le32(data, 4 * i) == u);
            assert(signed_value(u, 4294967296) == v);
        }
    }
}

/// Capture side of a cycle: encode one chunk of integer samples and
/// append it to the shared buffer under the batch framing policy.
pub fn accumulate_chunk(buf: &mut AccumulationBuffer, f: WavFormat, samples: &Vec<i32>)
    requires
        wav_format_wf(f),
        forall|i: int|
            0 <= i < samples@.len() ==> sample_fits(
                #[trigger] samples@[i] as int,
                f.bits_per_sample as int,
            ),
        samples@.len() * (f.bits_per_sample as int / 8) <= u32::MAX as int - 36,
    ensures
        final(buf)@ == appended(old(buf)@, encode_spec(f, samples@)),
{
    let chunk = encode_chunk(f, samples);
    buf.append(chunk.as_slice());
}

} // verus!
