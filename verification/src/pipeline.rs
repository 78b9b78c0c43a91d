//! One analysis cycle: drained bytes to actuator commands.
//!
//! The transform itself runs in the platform's tuned kernel; its output
//! values depend on which kernel the machine gets, so the pipeline
//! states only its shape and verifies everything that follows — the
//! spectrum's structure and the whole band mapping — for every magnitude
//! vector the transform can return.

use vstd::prelude::*;
use crate::bands::{band_wf, ActuatorCommand, Band};
use crate::buffer::AccumulationBuffer;
use crate::mapper::commands_of;
use crate::mapper::map_bands;
use crate::spectrum::{spectrum_entries, spectrum_wf, Spectrum};
use crate::wav::{decode_chunk, decode_error_of, decode_ok, decoded_samples, DecodeError};
use crate::wav::parsed_format;

verus! {

/// Relies on rustfft's `FftPlanner::plan_fft_forward` and `Fft::process`
/// (with num_complex's `Complex::norm`): an in-place forward transform
/// of one whole non-empty buffer, one output value per input sample.
/// The buffer holds the fixed-point samples verbatim, so each output
/// magnitude comes back on the spectrum's fixed-point scale, truncated
/// to an integer; the planner picks a platform-tuned kernel, so nothing
/// is stated about the magnitudes' values, only their number.
#[verifier::external_body]
fn fft_magnitudes(samples: &Vec<i16>) -> (mags: Vec<u64>)
    requires
        samples@.len() > 0,
    ensures
        mags@.len() == samples@.len(),
{
    let mut buf: Vec<rustfft::num_complex::Complex32> = samples.iter().map(
        |&s| rustfft::num_complex::Complex32::new(s.into(), Default::default()),
    ).collect();
    rustfft::FftPlanner::new().plan_fft_forward(buf.len()).process(&mut buf);
    buf.iter().map(|c| c.norm() as u64).collect()
}

/// Analyze one drained batch: decode it, and transform its samples into
/// the cycle's spectrum.  `Ok(None)` is the silent skip for a batch with
/// no samples; a malformed batch is the cycle's reported error.  The
/// spectrum is the entry list built, under the documented frequency and
/// collision policy, from some magnitude vector with one value per
/// decoded sample.
pub fn analyze_batch(bytes: &[u8]) -> (r: Result<Option<Spectrum>, DecodeError>)
    ensures
        r is Ok <==> decode_ok(bytes@),
        !decode_ok(bytes@) ==> r == Err::<Option<Spectrum>, DecodeError>(decode_error_of(bytes@)),
        r matches Ok(o) ==> ((o is Some) <==> decoded_samples(bytes@).len() > 0),
        r matches Ok(Some(s)) ==> spectrum_wf(s@) && (exists|mags: Seq<u64>|
            mags.len() == decoded_samples(bytes@).len() && s@ == spectrum_entries(
                mags,
                parsed_format(bytes@).sample_rate as int,
                mags.len() as int,
            )),
{
    let decoded = match decode_chunk(bytes) {
        Ok(d) => d,
        Err(e) => {
            return Err(e);
        },
    };
    if decoded.samples.is_empty() {
        return Ok(None);
    }
    let mags = fft_magnitudes(&decoded.samples);
    let s = Spectrum::from_magnitudes(&mags, decoded.format.sample_rate);
    proof {
        assert(mags@.len() == decoded_samples(bytes@).len() && s@ == spectrum_entries(
            mags@,
            parsed_format(bytes@).sample_rate as int,
            mags@.len() as int,
        ));
    }
    Ok(Some(s))
}

/// One full analysis cycle over the shared buffer: drain it atomically;
/// an empty buffer does no further work and produces no commands; a
/// batch that decodes to samples is transformed and mapped over the
/// bands in configuration order; a malformed batch is reported and
/// produces no commands.  The buffer is empty afterwards in every case.
pub fn run_cycle(buf: &mut AccumulationBuffer, bands: &Vec<Band>) -> (r: Result<
    Vec<ActuatorCommand>,
    DecodeError,
>)
    requires
        forall|i: int| 0 <= i < bands@.len() ==> band_wf(#[trigger] bands@[i]),
    ensures
        final(buf)@ == Seq::<u8>::empty(),
        old(buf)@.len() == 0 ==> (r matches Ok(c) && c@.len() == 0),
        old(buf)@.len() > 0 ==> ((r is Ok) <==> decode_ok(old(buf)@)),
        old(buf)@.len() > 0 && !decode_ok(old(buf)@) ==> r == Err::<
            Vec<ActuatorCommand>,
            DecodeError,
        >(decode_error_of(old(buf)@)),
        old(buf)@.len() > 0 && decode_ok(old(buf)@) && decoded_samples(old(buf)@).len() == 0 ==> (
        r matches Ok(c) && c@.len() == 0),
        old(buf)@.len() > 0 && decode_ok(old(buf)@) && decoded_samples(old(buf)@).len() > 0 ==> (
        r matches Ok(c) && (exists|mags: Seq<u64>|
            mags.len() == decoded_samples(old(buf)@).len() && c@.map_values(
                |cmd: ActuatorCommand| cmd@,
            ) == commands_of(
                spectrum_entries(
                    mags,
                    parsed_format(old(buf)@).sample_rate as int,
                    mags.len() as int,
                ),
                bands@,
            ))),
{
    let data = buf.drain();
    if data.is_empty() {
        return Ok(Vec::new());
    }
    match analyze_batch(data.as_slice()) {
        Ok(Some(s)) => {
            let cmds = map_bands(&s, bands);
            proof {
                let m = choose|mags: Seq<u64>|
                    mags.len() == decoded_samples(data@).len() && s@ == spectrum_entries(
                        mags,
                        parsed_format(data@).sample_rate as int,
                        mags.len() as int,
                    );
                assert(m.len() == decoded_samples(data@).len() && cmds@.map_values(
                    |cmd: ActuatorCommand| cmd@,
                ) == commands_of(
                    spectrum_entries(m, parsed_format(data@).sample_rate as int, m.len() as int),
                    bands@,
                ));
            }
            Ok(cmds)
        },
        Ok(None) => Ok(Vec::new()),
        Err(e) => Err(e),
    }
}

} // verus!
