//! The magnitude spectrum of one analysis cycle.
//!
//! Magnitudes are fixed-point values on the 16-bit sample scale: 32768
//! units stand for one unit of the normalized magnitude scale.  Each
//! transform bin `i` of an `n`-sample cycle maps to
//! the integer frequency `i * sample_rate / n` Hz, saturated at the
//! largest representable frequency; when several bins round to the same
//! frequency the last bin wins.  Magnitudes above the soft cap are
//! recorded as the cap, a safety valve that keeps band sums exact for
//! every real signal.

use vstd::prelude::*;

verus! {

/// Largest frequency, in Hz, a spectrum entry can carry.
pub const MAX_FREQUENCY_HZ: i16 = 32767;

/// Soft cap on a single entry's magnitude.
pub const MAGNITUDE_CAP: u64 = 0xffff_ffff;

/// The frequency of transform bin `i` for `n` samples at `rate` Hz.
pub open spec fn bin_frequency(i: int, rate: int, n: int) -> int
    recommends
        n > 0,
{
    let f = i * rate / n;
    if f > MAX_FREQUENCY_HZ as int {
        MAX_FREQUENCY_HZ as int
    } else {
        f
    }
}

/// A magnitude under the soft cap.
pub open spec fn capped_magnitude(m: u64) -> u64 {
    if m > MAGNITUDE_CAP {
        MAGNITUDE_CAP
    } else {
        m
    }
}

/// One bin folded into the entry list: a repeat of the newest frequency
/// overwrites its magnitude, a higher frequency opens a new entry.
pub open spec fn folded_entry(entries: Seq<(i16, u64)>, f: i16, m: u64) -> Seq<(i16, u64)> {
    if entries.len() > 0 && entries.last().0 == f {
        entries.update(entries.len() - 1, (f, m))
    } else if entries.len() == 0 || entries.last().0 < f {
        entries.push((f, m))
    } else {
        entries
    }
}

/// The entry list built from the first `upto` bins of the magnitude
/// sequence, in bin order.
pub open spec fn spectrum_entries(mags: Seq<u64>, rate: int, upto: int) -> Seq<(i16, u64)>
    decreases upto,
{
    if upto <= 0 {
        Seq::empty()
    } else {
        folded_entry(
            spectrum_entries(mags, rate, upto - 1),
            bin_frequency(upto - 1, rate, mags.len() as int) as i16,
            capped_magnitude(mags[upto - 1]),
        )
    }
}

/// Entries sorted by strictly increasing non-negative frequency, each
/// magnitude under the soft cap.
pub open spec fn spectrum_wf(entries: Seq<(i16, u64)>) -> bool {
    (forall|i: int, j: int|
        0 <= i < j < entries.len() ==> (#[trigger] entries[i]).0 < (#[trigger] entries[j]).0)
        && (forall|i: int|
        0 <= i < entries.len() ==> 0 <= (#[trigger] entries[i]).0 && entries[i].1 <= MAGNITUDE_CAP)
}

/// Mapping from integer frequency to magnitude for one analysis cycle.
pub struct Spectrum {
    entries: Vec<(i16, u64)>,
}

impl View for Spectrum {
    type V = Seq<(i16, u64)>;

    closed spec fn view(&self) -> Seq<(i16, u64)> {
        self.entries@
    }
}

impl Spectrum {
    /// Number of distinct frequencies.
    pub fn len(&self) -> (n: usize)
        ensures
            n == self@.len(),
    {
        self.entries.len()
    }

    /// The entry at position `i`, in increasing frequency order.
    pub fn entry(&self, i: usize) -> (e: (i16, u64))
        requires
            i < self@.len(),
        ensures
            e == self@[i as int],
    {
        self.entries[i]
    }

    /// Build the spectrum of one cycle from the transform's magnitudes.
    pub fn from_magnitudes(mags: &Vec<u64>, sample_rate: u32) -> (s: Spectrum)
        requires
            mags@.len() > 0,
        ensures
            s@ == spectrum_entries(mags@, sample_rate as int, mags@.len() as int),
            spectrum_wf(s@),
    {
        let n = mags.len();
        let mut entries: Vec<(i16, u64)> = Vec::new();
        let mut i: usize = 0;
        while i < n
            invariant
                0 <= i as int <= mags@.len(),
                n == mags@.len(),
                n > 0,
                entries@ == spectrum_entries(mags@, sample_rate as int, i as int),
                spectrum_wf(entries@),
            decreases mags@.len() - i as int,
        {
            proof {
                assert((i as int) * (sample_rate as int) <= (u64::MAX as int) * (u32::MAX
                    as int)) by (nonlinear_arith)
                    requires
                        0 <= i as int <= u64::MAX as int,
                        0 <= sample_rate as int <= u32::MAX as int,
                ;
            }
            let fq: u128 = (i as u128) * (sample_rate as u128) / (n as u128);
            let freq: i16 = if fq > MAX_FREQUENCY_HZ as u128 {
                MAX_FREQUENCY_HZ
            } else {
                fq as i16
            };
            proof {
                assert(freq as int == bin_frequency(i as int, sample_rate as int, mags@.len() as int));
            }
            let raw = mags[i];
            let m: u64 = if raw > MAGNITUDE_CAP {
                MAGNITUDE_CAP
            } else {
                raw
            };
            let len = entries.len();
            if len > 0 && entries[len - 1].0 == freq {
                entries.pop();
                entries.push((freq, m));
                proof {
                    assert(entries@ =~= folded_entry(
                        spectrum_entries(mags@, sample_rate as int, i as int),
                        freq,
                        m,
                    ));
                }
            } else if len == 0 || entries[len - 1].0 < freq {
                entries.push((freq, m));
            }
            i = i + 1;
        }
        Spectrum { entries }
    }
}

} // verus!
