//! Frequency bands, actuator patterns and actuator commands.
//!
//! A band is a configured half-open frequency range `[start, end)` with a
//! normalization reference, a trigger threshold, a clamp ceiling and the
//! set of actuator indices it drives.  Pattern names from the
//! configuration resolve to closed, statically known index sets; an
//! unknown name resolves to the empty set and is reported by the caller,
//! never a failure.
//!
//! Actuator indices address the vest's motors: 0–9 the front panel,
//! 10–19 the back panel, each panel top row to bottom row.

use vstd::prelude::*;
use vstd::string::*;

verus! {

/// A named actuator pattern of the haptic vest.
#[derive(Clone, Copy, PartialEq, Eq, Structural, Debug)]
pub enum ActuatorPattern {
    MiddleFront,
    MiddleBack,
    AroundFront,
    AroundBack,
    UpFront,
    UpBack,
    DownFront,
    DownBack,
    Front,
    Back,
    MiddleAll,
    AroundAll,
    UpAll,
    DownAll,
    All,
}

/// Indices of the two middle-row front motors.
pub open spec fn middle_front_indices() -> Seq<u8> {
    seq![4u8, 5u8]
}

/// Indices of the two middle-row back motors.
pub open spec fn middle_back_indices() -> Seq<u8> {
    seq![14u8, 15u8]
}

/// Indices of the front motors around the middle row.
pub open spec fn around_front_indices() -> Seq<u8> {
    seq![2u8, 3u8, 6u8, 7u8]
}

/// Indices of the back motors around the middle row.
pub open spec fn around_back_indices() -> Seq<u8> {
    seq![12u8, 13u8, 16u8, 17u8]
}

/// Indices of the top-row front motors.
pub open spec fn up_front_indices() -> Seq<u8> {
    seq![0u8, 1u8]
}

/// Indices of the top-row back motors.
pub open spec fn up_back_indices() -> Seq<u8> {
    seq![10u8, 11u8]
}

/// Indices of the bottom-row front motors.
pub open spec fn down_front_indices() -> Seq<u8> {
    seq![8u8, 9u8]
}

/// Indices of the bottom-row back motors.
pub open spec fn down_back_indices() -> Seq<u8> {
    seq![18u8, 19u8]
}

/// The actuator indices a pattern drives.  Combined patterns are the
/// concatenation of their parts, front before back.
pub open spec fn pattern_actuators_spec(p: ActuatorPattern) -> Seq<u8> {
    match p {
        ActuatorPattern::UpFront => up_front_indices(),
        ActuatorPattern::UpBack => up_back_indices(),
        ActuatorPattern::MiddleFront => middle_front_indices(),
        ActuatorPattern::MiddleBack => middle_back_indices(),
        ActuatorPattern::DownFront => down_front_indices(),
        ActuatorPattern::DownBack => down_back_indices(),
        ActuatorPattern::AroundFront => around_front_indices(),
        ActuatorPattern::AroundBack => around_back_indices(),
        ActuatorPattern::Front => seq![0u8, 1u8, 2u8, 3u8, 4u8, 5u8, 6u8, 7u8, 8u8, 9u8],
        ActuatorPattern::Back => seq![
            10u8,
            11u8,
            12u8,
            13u8,
            14u8,
            15u8,
            16u8,
            17u8,
            18u8,
            19u8,
        ],
        ActuatorPattern::MiddleAll => middle_front_indices() + middle_back_indices(),
        ActuatorPattern::UpAll => up_front_indices() + up_back_indices(),
        ActuatorPattern::DownAll => down_front_indices() + down_back_indices(),
        ActuatorPattern::AroundAll => around_front_indices() + around_back_indices(),
        ActuatorPattern::All => middle_front_indices() + middle_back_indices()
            + around_front_indices() + around_back_indices(),
    }
}

/// The actuator indices a pattern drives.
pub fn pattern_actuators(p: ActuatorPattern) -> (v: Vec<u8>)
    ensures
        v@ == pattern_actuators_spec(p),
{
    let v: Vec<u8> = match p {
        ActuatorPattern::UpFront => vec![0u8, 1u8],
        ActuatorPattern::UpBack => vec![10u8, 11u8],
        ActuatorPattern::MiddleFront => vec![4u8, 5u8],
        ActuatorPattern::MiddleBack => vec![14u8, 15u8],
        ActuatorPattern::DownFront => vec![8u8, 9u8],
        ActuatorPattern::DownBack => vec![18u8, 19u8],
        ActuatorPattern::AroundFront => vec![2u8, 3u8, 6u8, 7u8],
        ActuatorPattern::AroundBack => vec![12u8, 13u8, 16u8, 17u8],
        ActuatorPattern::Front => vec![0u8, 1u8, 2u8, 3u8, 4u8, 5u8, 6u8, 7u8, 8u8, 9u8],
        ActuatorPattern::Back => vec![10u8, 11u8, 12u8, 13u8, 14u8, 15u8, 16u8, 17u8, 18u8, 19u8],
        ActuatorPattern::MiddleAll => vec![4u8, 5u8, 14u8, 15u8],
        ActuatorPattern::UpAll => vec![0u8, 1u8, 10u8, 11u8],
        ActuatorPattern::DownAll => vec![8u8, 9u8, 18u8, 19u8],
        ActuatorPattern::AroundAll => vec![2u8, 3u8, 6u8, 7u8, 12u8, 13u8, 16u8, 17u8],
        ActuatorPattern::All => vec![4u8, 5u8, 14u8, 15u8, 2u8, 3u8, 6u8, 7u8, 12u8, 13u8, 16u8, 17u8],
    };
    proof {
        assert(v@ =~= pattern_actuators_spec(p));
    }
    v
}

/// True when the two byte sequences are equal.
fn bytes_eq(a: &[u8], b: &[u8]) -> (r: bool)
    ensures
        r == (a@ == b@),
{
    if a.len() != b.len() {
        return false;
    }
    let mut i: usize = 0;
    while i < a.len()
        invariant
            0 <= i as int <= a@.len(),
            a@.len() == b@.len(),
            forall|j: int| 0 <= j < i as int ==> a@[j] == b@[j],
        decreases a@.len() - i as int,
    {
        if a[i] != b[i] {
            return false;
        }
        i = i + 1;
    }
    proof {
        assert(a@ =~= b@);
    }
    true
}

/// The pattern a configuration name denotes, by the name's UTF-8 bytes;
/// `None` for an unknown name.
pub open spec fn pattern_of_bytes(name: Seq<u8>) -> Option<ActuatorPattern> {
    if name == "middle_front".spec_bytes() {
        Some(ActuatorPattern::MiddleFront)
    } else if name == "middle_back".spec_bytes() {
        Some(ActuatorPattern::MiddleBack)
    } else if name == "around_front".spec_bytes() {
        Some(ActuatorPattern::AroundFront)
    } else if name == "around_back".spec_bytes() {
        Some(ActuatorPattern::AroundBack)
    } else if name == "up_front".spec_bytes() {
        Some(ActuatorPattern::UpFront)
    } else if name == "up_back".spec_bytes() {
        Some(ActuatorPattern::UpBack)
    } else if name == "down_front".spec_bytes() {
        Some(ActuatorPattern::DownFront)
    } else if name == "down_back".spec_bytes() {
        Some(ActuatorPattern::DownBack)
    } else if name == "front".spec_bytes() {
        Some(ActuatorPattern::Front)
    } else if name == "back".spec_bytes() {
        Some(ActuatorPattern::Back)
    } else if name == "middle_all".spec_bytes() {
        Some(ActuatorPattern::MiddleAll)
    } else if name == "around_all".spec_bytes() {
        Some(ActuatorPattern::AroundAll)
    } else if name == "up_all".spec_bytes() {
        Some(ActuatorPattern::UpAll)
    } else if name == "down_all".spec_bytes() {
        Some(ActuatorPattern::DownAll)
    } else if name == "all".spec_bytes() {
        Some(ActuatorPattern::All)
    } else {
        None
    }
}

/// Resolve a configuration pattern name; `None` for an unknown name, which
/// the caller reports as a diagnostic.
pub fn parse_pattern(name: &str) -> (r: Option<ActuatorPattern>)
    ensures
        r == pattern_of_bytes(name.spec_bytes()),
{
    let b = name.as_bytes();
    if bytes_eq(b, "middle_front".as_bytes()) {
        Some(ActuatorPattern::MiddleFront)
    } else if bytes_eq(b, "middle_back".as_bytes()) {
        Some(ActuatorPattern::MiddleBack)
    } else if bytes_eq(b, "around_front".as_bytes()) {
        Some(ActuatorPattern::AroundFront)
    } else if bytes_eq(b, "around_back".as_bytes()) {
        Some(ActuatorPattern::AroundBack)
    } else if bytes_eq(b, "up_front".as_bytes()) {
        Some(ActuatorPattern::UpFront)
    } else if bytes_eq(b, "up_back".as_bytes()) {
        Some(ActuatorPattern::UpBack)
    } else if bytes_eq(b, "down_front".as_bytes()) {
        Some(ActuatorPattern::DownFront)
    } else if bytes_eq(b, "down_back".as_bytes()) {
        Some(ActuatorPattern::DownBack)
    } else if bytes_eq(b, "front".as_bytes()) {
        Some(ActuatorPattern::Front)
    } else if bytes_eq(b, "back".as_bytes()) {
        Some(ActuatorPattern::Back)
    } else if bytes_eq(b, "middle_all".as_bytes()) {
        Some(ActuatorPattern::MiddleAll)
    } else if bytes_eq(b, "around_all".as_bytes()) {
        Some(ActuatorPattern::AroundAll)
    } else if bytes_eq(b, "up_all".as_bytes()) {
        Some(ActuatorPattern::UpAll)
    } else if bytes_eq(b, "down_all".as_bytes()) {
        Some(ActuatorPattern::DownAll)
    } else if bytes_eq(b, "all".as_bytes()) {
        Some(ActuatorPattern::All)
    } else {
        None
    }
}

/// The actuator indices a configuration name resolves to: the pattern's
/// indices for a known name, the empty set for an unknown one.
pub open spec fn actuators_of_name(name: Seq<u8>) -> Seq<u8> {
    match pattern_of_bytes(name) {
        Some(p) => pattern_actuators_spec(p),
        None => Seq::empty(),
    }
}

/// Resolve a pattern name to the actuator indices it drives.  An unknown
/// name resolves to the empty index set; it never fails.
pub fn pattern_to_vec(name: &str) -> (v: Vec<u8>)
    ensures
        v@ == actuators_of_name(name.spec_bytes()),
        pattern_of_bytes(name.spec_bytes()) is None ==> v@ == Seq::<u8>::empty(),
{
    match parse_pattern(name) {
        Some(p) => pattern_actuators(p),
        None => Vec::new(),
    }
}

/// One configured frequency band.  `reference_max` and the spectrum's
/// magnitudes share one fixed-point unit (thousandths of the normalized
/// magnitude scale); the threshold and clamp fields are percent values.
#[derive(Clone, Debug)]
pub struct Band {
    /// Lowest frequency of the band, in Hz (inclusive).
    pub start_freq: i16,
    /// Frequency just above the band, in Hz (exclusive).
    pub end_freq: i16,
    /// Averaged magnitude that maps to an intensity of 100 percent.
    pub reference_max: u64,
    /// Intensities at or below this percent emit no command.
    pub trigger_threshold_percent: u32,
    /// Ceiling, in percent, of the intensity a command may carry.
    pub max_clamp_percent: u32,
    /// The actuator indices the band drives.
    pub actuators: Vec<u8>,
}

/// A usable band: a non-empty normalization reference and an ordered range.
pub open spec fn band_wf(b: Band) -> bool {
    b.reference_max >= 1 && b.start_freq <= b.end_freq
}

impl Band {
    pub fn new(
        start_freq: i16,
        end_freq: i16,
        reference_max: u64,
        trigger_threshold_percent: u32,
        max_clamp_percent: u32,
        actuators: Vec<u8>,
    ) -> (b: Band)
        requires
            reference_max >= 1,
            start_freq <= end_freq,
        ensures
            b.start_freq == start_freq,
            b.end_freq == end_freq,
            b.reference_max == reference_max,
            b.trigger_threshold_percent == trigger_threshold_percent,
            b.max_clamp_percent == max_clamp_percent,
            b.actuators@ == actuators@,
            band_wf(b),
    {
        Band {
            start_freq,
            end_freq,
            reference_max,
            trigger_threshold_percent,
            max_clamp_percent,
            actuators,
        }
    }
}

/// A flat-intensity pulse for a set of actuators.  Start and end intensity
/// are equal; the pipeline emits no easing curve.
#[derive(Clone, Debug)]
pub struct ActuatorCommand {
    /// Pulse length in milliseconds.
    pub duration_ms: u32,
    /// Intensity percent at the start of the pulse.
    pub start_intensity: u64,
    /// Intensity percent at the end of the pulse.
    pub end_intensity: u64,
    /// Easing curve identifier; always absent for spectrum-driven pulses.
    pub easing: Option<u32>,
    /// Indices of the actuators the pulse drives.
    pub actuators: Vec<u8>,
}

/// Mathematical image of an actuator command.
pub struct CommandModel {
    pub duration_ms: int,
    pub start_intensity: int,
    pub end_intensity: int,
    pub easing: Option<int>,
    pub actuators: Seq<u8>,
}

impl View for ActuatorCommand {
    type V = CommandModel;

    open spec fn view(&self) -> CommandModel {
        CommandModel {
            duration_ms: self.duration_ms as int,
            start_intensity: self.start_intensity as int,
            end_intensity: self.end_intensity as int,
            easing: match self.easing {
                Some(e) => Some(e as int),
                None => None,
            },
            actuators: self.actuators@,
        }
    }
}

} // verus!
