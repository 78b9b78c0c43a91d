//! Band intensity mapping: from a spectrum to actuator commands.
//!
//! For each configured band, in configuration order, the magnitudes of
//! the spectrum entries inside the band's range are summed, averaged over
//! the analysis sub-windows, and normalized against the band's reference
//! into an intensity percent.  An intensity at or below the band's
//! trigger threshold emits nothing; an averaged magnitude above the
//! band's clamp ceiling emits a pulse at the ceiling; anything else emits
//! a pulse at the intensity percent less a fixed headroom, floored at
//! zero.  Every pulse is flat (equal start and end intensity) and of
//! fixed duration.

use vstd::arithmetic::mul::lemma_mul_inequality;
use vstd::prelude::*;
use crate::bands::{band_wf, ActuatorCommand, Band, CommandModel};
use crate::spectrum::{spectrum_wf, Spectrum, MAGNITUDE_CAP};

verus! {

/// Number of analysis sub-windows an accumulated magnitude is averaged
/// over before normalization.
pub const NORMALIZATION_DIVISOR: u64 = 5;

/// Fixed headroom subtracted from the intensity percent of an unclamped
/// pulse.
pub const HEADROOM_PERCENT: u64 = 20;

/// Duration of every emitted pulse, in milliseconds.
pub const COMMAND_DURATION_MS: u32 = 60;

/// Fixed-point scale of the spectrum: magnitude units per one unit of
/// the normalized magnitude scale (one unit is one 16-bit sample
/// quantum), used to compare an averaged magnitude against the clamp
/// ceiling.
pub const MAGNITUDE_SCALE: u64 = 32768;

/// Sum of the magnitudes of the entries with frequency in `[start, end)`.
pub open spec fn band_sum(entries: Seq<(i16, u64)>, start: i16, end: i16) -> int
    decreases entries.len(),
{
    if entries.len() == 0 {
        0
    } else {
        band_sum(entries.drop_last(), start, end) + if start <= entries.last().0
            && entries.last().0 < end {
            entries.last().1 as int
        } else {
            0
        }
    }
}

/// The band's summed magnitude averaged over the analysis sub-windows.
pub open spec fn averaged_magnitude(entries: Seq<(i16, u64)>, b: Band) -> int {
    band_sum(entries, b.start_freq, b.end_freq) / (NORMALIZATION_DIVISOR as int)
}

/// The band's intensity as a percent of its normalization reference,
/// rounded toward zero.
pub open spec fn intensity_percent(entries: Seq<(i16, u64)>, b: Band) -> int {
    averaged_magnitude(entries, b) * 100 / (b.reference_max as int)
}

/// A band emits a command only when its intensity percent is strictly
/// above its trigger threshold.
pub open spec fn band_emits(entries: Seq<(i16, u64)>, b: Band) -> bool {
    intensity_percent(entries, b) > b.trigger_threshold_percent as int
}

/// The averaged magnitude exceeds the band's clamp ceiling, compared in
/// magnitude units.
pub open spec fn clamp_exceeded(entries: Seq<(i16, u64)>, b: Band) -> bool {
    averaged_magnitude(entries, b) > b.max_clamp_percent as int * MAGNITUDE_SCALE as int
}

/// Intensity percent of the pulse an emitting band produces: the clamp
/// ceiling when it is exceeded, otherwise the intensity percent less the
/// headroom, floored at zero.
pub open spec fn emitted_intensity(entries: Seq<(i16, u64)>, b: Band) -> int {
    if clamp_exceeded(entries, b) {
        b.max_clamp_percent as int
    } else if intensity_percent(entries, b) > HEADROOM_PERCENT as int {
        intensity_percent(entries, b) - HEADROOM_PERCENT as int
    } else {
        0
    }
}

/// The pulse an emitting band produces.
pub open spec fn band_command_model(entries: Seq<(i16, u64)>, b: Band) -> CommandModel {
    CommandModel {
        duration_ms: COMMAND_DURATION_MS as int,
        start_intensity: emitted_intensity(entries, b),
        end_intensity: emitted_intensity(entries, b),
        easing: None,
        actuators: b.actuators@,
    }
}

/// The commands one cycle emits: one pulse per emitting band, in
/// configuration order.
pub open spec fn commands_of(entries: Seq<(i16, u64)>, bands: Seq<Band>) -> Seq<CommandModel>
    decreases bands.len(),
{
    if bands.len() == 0 {
        Seq::empty()
    } else {
        commands_of(entries, bands.drop_last()) + if band_emits(entries, bands.last()) {
            seq![band_command_model(entries, bands.last())]
        } else {
            Seq::empty()
        }
    }
}

/// The band sum is non-negative and at most one cap per entry.
pub proof fn lemma_band_sum_bounds(entries: Seq<(i16, u64)>, start: i16, end: i16)
    requires
        forall|i: int| 0 <= i < entries.len() ==> (#[trigger] entries[i]).1 <= MAGNITUDE_CAP,
    ensures
        0 <= band_sum(entries, start, end) <= entries.len() * (MAGNITUDE_CAP as int),
    decreases entries.len(),
{
    if entries.len() > 0 {
        let dl = entries.drop_last();
        assert(forall|i: int| 0 <= i < dl.len() ==> (#[trigger] dl[i]).1 <= MAGNITUDE_CAP);
        lemma_band_sum_bounds(dl, start, end);
        assert(entries.last().1 <= MAGNITUDE_CAP);
    }
}

fn copy_indices(v: &Vec<u8>) -> (out: Vec<u8>)
    ensures
        out@ == v@,
{
    let mut out: Vec<u8> = Vec::new();
    let mut i: usize = 0;
    while i < v.len()
        invariant
            0 <= i as int <= v@.len(),
            out@ == v@.subrange(0, i as int),
        decreases v@.len() - i as int,
    {
        out.push(v[i]);
        proof {
            assert(out@ =~= v@.subrange(0, i + 1));
        }
        i = i + 1;
    }
    proof {
        assert(out@ =~= v@);
    }
    out
}

/// Sum the magnitudes of the spectrum entries inside `[start, end)`.
pub fn band_magnitude_sum(s: &Spectrum, start: i16, end: i16) -> (sum: u128)
    requires
        spectrum_wf(s@),
    ensures
        sum == band_sum(s@, start, end),
{
    let n = s.len();
    let mut sum: u128 = 0;
    let mut i: usize = 0;
    while i < n
        invariant
            0 <= i as int <= s@.len(),
            n == s@.len(),
            spectrum_wf(s@),
            sum == band_sum(s@.subrange(0, i as int), start, end),
        decreases s@.len() - i as int,
    {
        let (freq, mag) = s.entry(i);
        proof {
            lemma_band_sum_bounds(s@.subrange(0, i as int), start, end);
            lemma_mul_inequality(i as int, usize::MAX as int, MAGNITUDE_CAP as int);
            assert(s@.subrange(0, i + 1).drop_last() =~= s@.subrange(0, i as int));
            assert(s@.subrange(0, i + 1).last() == s@[i as int]);
        }
        if start <= freq && freq < end {
            sum = sum + mag as u128;
        }
        i = i + 1;
    }
    proof {
        assert(s@.subrange(0, s@.len() as int) =~= s@);
    }
    sum
}

/// The band's averaged magnitude and intensity percent for this
/// spectrum: what the threshold and ceiling tests compare.
pub fn band_levels(s: &Spectrum, b: &Band) -> (r: (u128, u128))
    requires
        spectrum_wf(s@),
        band_wf(*b),
    ensures
        r.0 == averaged_magnitude(s@, *b),
        r.1 == intensity_percent(s@, *b),
{
    let n_s = s.len();
    let sum: u128 = band_magnitude_sum(s, b.start_freq, b.end_freq);
    proof {
        lemma_band_sum_bounds(s@, b.start_freq, b.end_freq);
        lemma_mul_inequality(n_s as int, usize::MAX as int, MAGNITUDE_CAP as int);
        assert(sum as int / (NORMALIZATION_DIVISOR as int) <= sum as int) by (nonlinear_arith)
            requires
                sum as int >= 0,
        ;
    }
    let avg: u128 = sum / (NORMALIZATION_DIVISOR as u128);
    proof {
        lemma_mul_inequality(avg as int, usize::MAX as int * (MAGNITUDE_CAP as int), 100);
    }
    let percent: u128 = avg * 100 / (b.reference_max as u128);
    (avg, percent)
}

/// Map one cycle's spectrum over the configured bands, in order, into
/// the pulses to dispatch.
pub fn map_bands(s: &Spectrum, bands: &Vec<Band>) -> (cmds: Vec<ActuatorCommand>)
    requires
        spectrum_wf(s@),
        forall|i: int| 0 <= i < bands@.len() ==> band_wf(#[trigger] bands@[i]),
    ensures
        cmds@.map_values(|c: ActuatorCommand| c@) == commands_of(s@, bands@),
{
    let mut cmds: Vec<ActuatorCommand> = Vec::new();
    let n_s = s.len();
    let mut j: usize = 0;
    while j < bands.len()
        invariant
            0 <= j as int <= bands@.len(),
            n_s == s@.len(),
            spectrum_wf(s@),
            forall|i: int| 0 <= i < bands@.len() ==> band_wf(#[trigger] bands@[i]),
            cmds@.map_values(|c: ActuatorCommand| c@) == commands_of(
                s@,
                bands@.subrange(0, j as int),
            ),
        decreases bands@.len() - j as int,
    {
        let b = &bands[j];
        let (avg, percent) = band_levels(s, b);
        let emits = percent > b.trigger_threshold_percent as u128;
        if emits {
            let inten: u64 = if avg > (b.max_clamp_percent as u128) * (MAGNITUDE_SCALE as u128) {
                b.max_clamp_percent as u64
            } else {
                proof {
                    assert((avg as int * 100) / (b.reference_max as int) <= avg as int
                        * 100) by (nonlinear_arith)
                        requires
                            avg as int >= 0,
                            b.reference_max as int >= 1,
                    ;
                    lemma_mul_inequality(
                        avg as int,
                        b.max_clamp_percent as int * (MAGNITUDE_SCALE as int),
                        100,
                    );
                }
                if percent > HEADROOM_PERCENT as u128 {
                    (percent - HEADROOM_PERCENT as u128) as u64
                } else {
                    0
                }
            };
            let cmd = ActuatorCommand {
                duration_ms: COMMAND_DURATION_MS,
                start_intensity: inten,
                end_intensity: inten,
                easing: None,
                actuators: copy_indices(&b.actuators),
            };
            proof {
                assert(cmd@ == band_command_model(s@, bands@[j as int]));
            }
            cmds.push(cmd);
        }
        proof {
            assert(bands@.subrange(0, j + 1).drop_last() =~= bands@.subrange(0, j as int));
            assert(bands@.subrange(0, j + 1).last() == bands@[j as int]);
            assert(cmds@.map_values(|c: ActuatorCommand| c@) =~= commands_of(
                s@,
                bands@.subrange(0, j + 1),
            ));
        }
        j = j + 1;
    }
    proof {
        assert(bands@.subrange(0, bands@.len() as int) =~= bands@);
    }
    cmds
}

/// Law: a band whose range holds no spectrum entry sums to zero.
pub proof fn lemma_band_sum_empty_range(entries: Seq<(i16, u64)>, start: i16, end: i16)
    requires
        forall|i: int|
            0 <= i < entries.len() ==> !(start <= (#[trigger] entries[i]).0
                && entries[i].0 < end),
    ensures
        band_sum(entries, start, end) == 0,
    decreases entries.len(),
{
    if entries.len() > 0 {
        let dl = entries.drop_last();
        assert(forall|i: int|
            0 <= i < dl.len() ==> !(start <= (#[trigger] dl[i]).0 && dl[i].0 < end));
        lemma_band_sum_empty_range(dl, start, end);
    }
}

/// Law: a band whose range holds no spectrum entry has intensity zero and
/// emits no command.
pub proof fn lemma_band_without_entries_gates(entries: Seq<(i16, u64)>, b: Band)
    requires
        band_wf(b),
        forall|i: int|
            0 <= i < entries.len() ==> !(b.start_freq <= (#[trigger] entries[i]).0
                && entries[i].0 < b.end_freq),
    ensures
        intensity_percent(entries, b) == 0,
        !band_emits(entries, b),
{
    lemma_band_sum_empty_range(entries, b.start_freq, b.end_freq);
}

/// Law: with all magnitude at a single frequency inside a band, the
/// band's intensity percent is that magnitude averaged over the
/// sub-windows and normalized against the band's reference.
pub proof fn lemma_concentrated_intensity(f: i16, m: u64, b: Band)
    requires
        band_wf(b),
        m <= MAGNITUDE_CAP,
        b.start_freq <= f < b.end_freq,
    ensures
        intensity_percent(seq![(f, m)], b) == (m as int / (NORMALIZATION_DIVISOR as int)) * 100 / (
        b.reference_max as int),
{
    let entries = seq![(f, m)];
    assert(entries.drop_last() =~= Seq::<(i16, u64)>::empty());
    assert(band_sum(Seq::<(i16, u64)>::empty(), b.start_freq, b.end_freq) == 0);
    assert(entries.last() == (f, m));
    assert(band_sum(entries, b.start_freq, b.end_freq) == m as int);
}

/// Law: a cycle in which no band emits produces no commands at all.
pub proof fn lemma_no_emitting_band_no_commands(entries: Seq<(i16, u64)>, bands: Seq<Band>)
    requires
        forall|k: int| 0 <= k < bands.len() ==> !band_emits(entries, #[trigger] bands[k]),
    ensures
        commands_of(entries, bands) == Seq::<CommandModel>::empty(),
    decreases bands.len(),
{
    if bands.len() > 0 {
        let dl = bands.drop_last();
        assert(forall|k: int| 0 <= k < dl.len() ==> !band_emits(entries, #[trigger] dl[k]));
        lemma_no_emitting_band_no_commands(entries, dl);
        assert(commands_of(entries, bands) =~= Seq::<CommandModel>::empty());
    }
}

/// Law: when exactly one band emits, the cycle's commands are exactly
/// that band's pulse.
pub proof fn lemma_single_emitting_band(entries: Seq<(i16, u64)>, bands: Seq<Band>, j: int)
    requires
        0 <= j < bands.len(),
        band_emits(entries, bands[j]),
        forall|k: int|
            0 <= k < bands.len() && k != j ==> !band_emits(entries, #[trigger] bands[k]),
    ensures
        commands_of(entries, bands) == seq![band_command_model(entries, bands[j])],
    decreases bands.len(),
{
    let dl = bands.drop_last();
    if j == bands.len() - 1 {
        assert(forall|k: int| 0 <= k < dl.len() ==> !band_emits(entries, #[trigger] dl[k]));
        lemma_no_emitting_band_no_commands(entries, dl);
        assert(commands_of(entries, bands) =~= seq![band_command_model(entries, bands[j])]);
    } else {
        assert(!band_emits(entries, bands.last()));
        lemma_single_emitting_band(entries, dl, j);
        assert(dl[j] == bands[j]);
        assert(commands_of(entries, bands) =~= seq![band_command_model(entries, bands[j])]);
    }
}

/// Law: when a band emits while its clamp ceiling is exceeded, the
/// command's start and end intensity are the ceiling itself, whatever
/// percent was computed.
pub proof fn lemma_clamp_ceiling(entries: Seq<(i16, u64)>, b: Band)
    requires
        band_emits(entries, b),
        clamp_exceeded(entries, b),
    ensures
        band_command_model(entries, b).start_intensity == b.max_clamp_percent as int,
        band_command_model(entries, b).end_intensity == b.max_clamp_percent as int,
{
}

} // verus!
