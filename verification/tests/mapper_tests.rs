use haptic_audio::bands::{parse_pattern, pattern_to_vec, ActuatorPattern, Band};
use haptic_audio::dispatch::CommandDispatcher;
use haptic_audio::bands::ActuatorCommand;
use haptic_audio::mapper::{band_levels, band_magnitude_sum, map_bands};
use haptic_audio::spectrum::Spectrum;

fn band(start: i16, end: i16, reference_max: u64, threshold: u32, clamp: u32) -> Band {
    Band::new(start, end, reference_max, threshold, clamp, vec![4, 5])
}

#[test]
fn normalized_percent_from_reference() {
    // summed magnitude 2500 averaged over 5 sub-windows is 500; against a
    // reference of 1000 that is 50 percent
    let mags: Vec<u64> = vec![2500];
    let s = Spectrum::from_magnitudes(&mags, 100);
    let b = band(0, 10, 1000, 10, 1_000_000);
    let (avg, percent) = band_levels(&s, &b);
    assert_eq!(avg, 500);
    assert_eq!(percent, 50);
}

#[test]
fn intensity_at_threshold_is_gated() {
    // percent exactly 10 against a threshold of 10 emits nothing
    let mags: Vec<u64> = vec![2500];
    let s = Spectrum::from_magnitudes(&mags, 100);
    let b = band(0, 10, 5000, 10, 1_000_000);
    let (_, percent) = band_levels(&s, &b);
    assert_eq!(percent, 10);
    let cmds = map_bands(&s, &vec![b]);
    assert!(cmds.is_empty());
}

#[test]
fn clamp_ceiling_caps_the_command() {
    // averaged magnitude 40000 exceeds a clamp of 1 (32768 units); the
    // command carries the ceiling, not the raw percent
    let mags: Vec<u64> = vec![200_000];
    let s = Spectrum::from_magnitudes(&mags, 100);
    let b = band(0, 10, 1, 10, 1);
    let cmds = map_bands(&s, &vec![b]);
    assert_eq!(cmds.len(), 1);
    assert_eq!(cmds[0].start_intensity, 1);
    assert_eq!(cmds[0].end_intensity, 1);
}

#[test]
fn concentrated_band_emits_and_others_gate() {
    let mags: Vec<u64> = vec![2500];
    let s = Spectrum::from_magnitudes(&mags, 100);
    let hit = Band::new(0, 10, 1000, 10, 1_000_000, vec![4, 5]);
    let miss = Band::new(10, 20, 1000, 10, 1_000_000, vec![14, 15]);
    let cmds = map_bands(&s, &vec![hit, miss]);
    assert_eq!(cmds.len(), 1);
    assert_eq!(cmds[0].actuators, vec![4, 5]);
    // 50 percent less the headroom of 20
    assert_eq!(cmds[0].start_intensity, 30);
    assert_eq!(cmds[0].end_intensity, 30);
    assert_eq!(cmds[0].duration_ms, 60);
    assert_eq!(cmds[0].easing, None);
}

#[test]
fn headroom_floors_at_zero() {
    // percent 15 is above a threshold of 10 but below the headroom of 20
    let mags: Vec<u64> = vec![750];
    let s = Spectrum::from_magnitudes(&mags, 100);
    let b = band(0, 10, 1000, 10, 1_000_000);
    let (_, percent) = band_levels(&s, &b);
    assert_eq!(percent, 15);
    let cmds = map_bands(&s, &vec![b]);
    assert_eq!(cmds.len(), 1);
    assert_eq!(cmds[0].start_intensity, 0);
}

#[test]
fn band_sums_cover_half_open_ranges() {
    let mags: Vec<u64> = vec![10, 20, 30];
    let s = Spectrum::from_magnitudes(&mags, 3);
    // bins 0, 1, 2 map to frequencies 0, 1, 2
    assert_eq!(band_magnitude_sum(&s, 0, 2), 30);
    assert_eq!(band_magnitude_sum(&s, 0, 3), 60);
    assert_eq!(band_magnitude_sum(&s, 2, 3), 30);
    assert_eq!(band_magnitude_sum(&s, 3, 10), 0);
}

#[test]
fn colliding_bins_keep_the_last_magnitude() {
    let mags: Vec<u64> = vec![5, 7];
    let s = Spectrum::from_magnitudes(&mags, 1);
    assert_eq!(s.len(), 1);
    assert_eq!(s.entry(0), (0, 7));
}

#[test]
fn frequency_saturates_at_the_largest_representable() {
    let mags: Vec<u64> = vec![1, 2];
    let s = Spectrum::from_magnitudes(&mags, 100_000);
    assert_eq!(s.entry(0), (0, 1));
    assert_eq!(s.entry(1), (32767, 2));
}

#[test]
fn oversized_magnitude_is_soft_capped() {
    let mags: Vec<u64> = vec![u64::MAX];
    let s = Spectrum::from_magnitudes(&mags, 100);
    assert_eq!(s.entry(0), (0, u32::MAX as u64));
}

#[test]
fn unknown_pattern_resolves_to_empty_set() {
    assert_eq!(parse_pattern("diagonal"), None);
    assert_eq!(pattern_to_vec("diagonal"), Vec::<u8>::new());
    assert_eq!(pattern_to_vec(""), Vec::<u8>::new());
}

#[test]
fn known_patterns_resolve_to_their_sets() {
    assert_eq!(parse_pattern("up_back"), Some(ActuatorPattern::UpBack));
    assert_eq!(pattern_to_vec("middle_front"), vec![4, 5]);
    assert_eq!(pattern_to_vec("middle_all"), vec![4, 5, 14, 15]);
    assert_eq!(pattern_to_vec("all"), vec![4, 5, 14, 15, 2, 3, 6, 7, 12, 13, 16, 17]);
    assert_eq!(pattern_to_vec("front"), vec![0, 1, 2, 3, 4, 5, 6, 7, 8, 9]);
}

fn pulse(intensity: u64) -> ActuatorCommand {
    ActuatorCommand {
        duration_ms: 60,
        start_intensity: intensity,
        end_intensity: intensity,
        easing: None,
        actuators: vec![4, 5],
    }
}

#[test]
fn dispatcher_serializes_sends() {
    let mut d = CommandDispatcher::new();
    assert!(!d.is_in_flight());
    // an empty batch is a no-op
    assert!(d.submit(Vec::new()).is_none());
    assert!(!d.is_in_flight());
    // the first real batch goes out at once
    let first = d.submit(vec![pulse(30)]);
    assert_eq!(first.unwrap()[0].start_intensity, 30);
    assert!(d.is_in_flight());
    // batches offered while a send is in flight wait, newest first
    assert!(d.submit(vec![pulse(40)]).is_none());
    assert!(d.submit(vec![pulse(50)]).is_none());
    // finishing the send hands out the single waiting batch
    let next = d.complete();
    assert_eq!(next.unwrap()[0].start_intensity, 50);
    assert!(d.is_in_flight());
    // nothing pending: the dispatcher goes idle
    assert!(d.complete().is_none());
    assert!(!d.is_in_flight());
    // idle completion is a no-op
    assert!(d.complete().is_none());
}
