use haptic_audio::bands::Band;
use haptic_audio::buffer::AccumulationBuffer;
use haptic_audio::pipeline::{analyze_batch, run_cycle};
use haptic_audio::wav::{encode_chunk, DecodeError, WavFormat};
use haptic_audio::wav::accumulate_chunk;

fn fmt16() -> WavFormat {
    WavFormat { channels: 1, sample_rate: 8000, bits_per_sample: 16 }
}

fn wide_band(reference_max: u64, threshold: u32) -> Band {
    Band::new(0, 100, reference_max, threshold, 1_000_000, vec![4, 5])
}

#[test]
fn empty_buffer_cycle_produces_nothing() {
    let mut buf = AccumulationBuffer::new();
    let bands = vec![wide_band(1000, 10)];
    let r = run_cycle(&mut buf, &bands);
    assert!(r.unwrap().is_empty());
    assert!(buf.is_empty());
}

#[test]
fn malformed_batch_reports_and_emits_nothing() {
    let mut buf = AccumulationBuffer::new();
    buf.append(&vec![0u8; 44]);
    let bands = vec![wide_band(1000, 10)];
    let r = run_cycle(&mut buf, &bands);
    assert_eq!(r.unwrap_err(), DecodeError::BadMagic);
    assert!(buf.is_empty());
}

#[test]
fn ragged_batch_reports_and_emits_nothing() {
    let mut buf = AccumulationBuffer::new();
    let mut enc = encode_chunk(fmt16(), &vec![1, 2]);
    enc.push(0xab);
    buf.append(&enc);
    let r = run_cycle(&mut buf, &vec![wide_band(1000, 10)]);
    assert_eq!(r.unwrap_err(), DecodeError::RaggedData);
}

#[test]
fn batch_without_samples_is_skipped_silently() {
    let mut buf = AccumulationBuffer::new();
    buf.append(&encode_chunk(fmt16(), &Vec::new()));
    let r = run_cycle(&mut buf, &vec![wide_band(1000, 10)]);
    assert!(r.unwrap().is_empty());
}

#[test]
fn constant_signal_concentrates_at_zero_frequency() {
    // the transform of eight equal samples puts all magnitude in the
    // zeroth bin: eight times the sample value, exactly representable
    let samples: Vec<i32> = vec![1000; 8];
    let enc = encode_chunk(fmt16(), &samples);
    let s = analyze_batch(&enc).unwrap().unwrap();
    assert_eq!(s.entry(0), (0, 8000));
    // the remaining bins map to 1000 Hz steps and carry nothing
    assert_eq!(s.len(), 8);
    for i in 1..8 {
        let (freq, mag) = s.entry(i);
        assert_eq!(freq as u32, i as u32 * 1000);
        assert_eq!(mag, 0);
    }
}

#[test]
fn end_to_end_cycle_emits_the_expected_pulse() {
    let mut buf = AccumulationBuffer::new();
    let samples: Vec<i32> = vec![1000; 8];
    accumulate_chunk(&mut buf, fmt16(), &samples);
    // summed magnitude 8000 averaged to 1600 against a reference of 1600
    // is 100 percent; less the headroom of 20 the pulse carries 80
    let bands = vec![wide_band(1600, 10)];
    let cmds = run_cycle(&mut buf, &bands).unwrap();
    assert_eq!(cmds.len(), 1);
    assert_eq!(cmds[0].start_intensity, 80);
    assert_eq!(cmds[0].end_intensity, 80);
    assert_eq!(cmds[0].duration_ms, 60);
    assert_eq!(cmds[0].actuators, vec![4, 5]);
    assert!(buf.is_empty());
}

#[test]
fn cycle_below_threshold_emits_nothing() {
    let mut buf = AccumulationBuffer::new();
    accumulate_chunk(&mut buf, fmt16(), &vec![1000; 8]);
    // 100 percent is not above a threshold of 100
    let bands = vec![wide_band(1600, 100)];
    let cmds = run_cycle(&mut buf, &bands).unwrap();
    assert!(cmds.is_empty());
}
