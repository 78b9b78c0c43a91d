use haptic_audio::wav::{decode_chunk, encode_chunk, DecodeError, WavFormat};

fn fmt(bits: u16) -> WavFormat {
    WavFormat { channels: 1, sample_rate: 8000, bits_per_sample: bits }
}

#[test]
fn header_layout_matches_the_format() {
    let samples: Vec<i32> = vec![0, 1];
    let enc = encode_chunk(fmt(16), &samples);
    assert_eq!(enc.len(), 44 + 4);
    assert_eq!(&enc[0..4], b"RIFF");
    assert_eq!(&enc[8..12], b"WAVE");
    assert_eq!(&enc[12..16], b"fmt ");
    assert_eq!(&enc[36..40], b"data");
    // format code 1 (integer PCM), one channel, 16 bits per sample
    assert_eq!(enc[20], 1);
    assert_eq!(enc[21], 0);
    assert_eq!(enc[22], 1);
    assert_eq!(enc[34], 16);
    // sample rate 8000 = 0x1f40, little-endian
    assert_eq!(enc[24], 0x40);
    assert_eq!(enc[25], 0x1f);
    // data length 4 bytes
    assert_eq!(enc[40], 4);
    assert_eq!(enc[41], 0);
}

#[test]
fn roundtrip_16_bit_samples() {
    let samples: Vec<i32> = vec![0, 1000, -1000, 32767, -32768];
    let enc = encode_chunk(fmt(16), &samples);
    let dec = decode_chunk(&enc).unwrap();
    assert_eq!(dec.format, fmt(16));
    assert_eq!(dec.samples, vec![0i16, 1000, -1000, 32767, -32768]);
}

#[test]
fn roundtrip_8_bit_samples_widened() {
    let samples: Vec<i32> = vec![0, 100, -100, 127, -128];
    let enc = encode_chunk(fmt(8), &samples);
    let dec = decode_chunk(&enc).unwrap();
    assert_eq!(dec.format, fmt(8));
    assert_eq!(dec.samples, vec![0i16, 25600, -25600, 32512, -32768]);
}

#[test]
fn roundtrip_32_bit_samples_narrowed_toward_zero() {
    let samples: Vec<i32> = vec![65536, -65536, 2147483647, -2147483648, 70000, -70000];
    let enc = encode_chunk(fmt(32), &samples);
    let dec = decode_chunk(&enc).unwrap();
    assert_eq!(dec.format, fmt(32));
    assert_eq!(dec.samples, vec![1i16, -1, 32767, -32768, 1, -1]);
}

#[test]
fn empty_sample_chunk_is_header_only() {
    let samples: Vec<i32> = vec![];
    let enc = encode_chunk(fmt(16), &samples);
    assert_eq!(enc.len(), 44);
    let dec = decode_chunk(&enc).unwrap();
    assert_eq!(dec.samples.len(), 0);
}

#[test]
fn too_short_batch_is_rejected() {
    let bytes = vec![0u8; 43];
    assert_eq!(decode_chunk(&bytes).unwrap_err(), DecodeError::TooShort);
}

#[test]
fn missing_magic_is_rejected() {
    let bytes = vec![0u8; 44];
    assert_eq!(decode_chunk(&bytes).unwrap_err(), DecodeError::BadMagic);
}

#[test]
fn non_integer_format_code_is_rejected() {
    let samples: Vec<i32> = vec![1, 2];
    let mut enc = encode_chunk(fmt(16), &samples);
    enc[20] = 3;
    assert_eq!(decode_chunk(&enc).unwrap_err(), DecodeError::UnsupportedFormat);
}

#[test]
fn unsupported_sample_width_is_rejected() {
    let samples: Vec<i32> = vec![1, 2];
    let mut enc = encode_chunk(fmt(16), &samples);
    enc[34] = 12;
    assert_eq!(decode_chunk(&enc).unwrap_err(), DecodeError::UnsupportedFormat);
}

#[test]
fn ragged_data_is_rejected() {
    let samples: Vec<i32> = vec![1, 2];
    let mut enc = encode_chunk(fmt(16), &samples);
    enc.push(0xab);
    assert_eq!(decode_chunk(&enc).unwrap_err(), DecodeError::RaggedData);
}
