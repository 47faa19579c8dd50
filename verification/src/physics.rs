//! Pen physics: a state machine that turns raw touch samples into stroke points
//! as they arrive.
//!
//! Instants are whole nanoseconds since one origin that the caller chooses.

use crate::constants::{
    EIGHTH_TURN, EIGHT_TENTHS, FULL_TURN, HALF, HUNDREDTH, ONE, QUARTER_TURN, SEVEN_TENTHS,
    SIXTH_TURN, SIXTY, TENTH, TEN_THOUSANDTH, THOUSAND, THREE_TENTHS, TWO, TWO_AND_A_HALF,
    TWO_TENTHS, ZERO,
};
use crate::exact::{near, number, parts, ulp};
use crate::number::{single, unsigned_singles_are_ordered, Single};
use crate::pen_laws::known_hands_in_numbers;
use crate::rounding::{
    beside, bounded_is_finite, constants_stand_for, differences_are_positive, finite,
    halving_the_excess_stays_between, infinity_is_one, products_are_at_least_one,
    products_are_not_negative, quotients_are_not_negative, rounds_soundly,
    sums_with_one_are_at_least_one,
};
use crate::unit::{FloatUnit, Op};
use crate::words::{is_image, words_as_bytes};
use vstd::prelude::*;

verus! {

/// How a hand writes. Tuned per user or per script.
#[derive(Clone, Copy, Debug, PartialEq)]
pub struct HandProfile {
    /// Dominant tremor frequency, in hertz.
    pub tremor_freq_hz: Single,
    /// Tremor amplitude of a rested hand, in millimetres.
    pub tremor_base_amplitude_mm: Single,
    /// How much the tremor grows per minute of writing.
    pub fatigue_per_minute: Single,
    /// The largest tremor multiplier.
    pub max_fatigue: Single,
    /// Writing slant in degrees from vertical; negative leans left.
    pub natural_slant_deg: Single,
    /// Ink width per unit of pressure.
    pub pressure_sensitivity: Single,
    /// The least pressure that counts as contact.
    pub pressure_threshold: Single,
    /// Time constant of the pressure smoothing, in milliseconds.
    pub pressure_smooth_ms: Single,
    /// How much the speed of the pen adds to the ink width.
    pub velocity_width_scale: Single,
}

impl HandProfile {
    /// The profile of an unknown hand.
    pub open spec fn standard() -> HandProfile {
        HandProfile {
            tremor_freq_hz: single(0x4110_0000),  // 9
            tremor_base_amplitude_mm: single(0x3DA3_D70A),  // 0.08
            fatigue_per_minute: single(0x3E19_999A),  // 0.15
            max_fatigue: single(0x4040_0000),  // 3
            natural_slant_deg: single(0xC140_0000),  // -12
            pressure_sensitivity: single(TWO_AND_A_HALF),
            pressure_threshold: single(0x3D4C_CCCD),  // 0.05
            pressure_smooth_ms: single(0x4180_0000),  // 16
            velocity_width_scale: single(THREE_TENTHS),
        }
    }

    /// A right-handed writer of Latin script.
    pub fn latin_right_handed() -> (r: HandProfile)
        ensures
            r == (HandProfile {
                natural_slant_deg: single(0xC170_0000),  // -15
                pressure_sensitivity: single(TWO_AND_A_HALF),
                ..HandProfile::standard()
            }),
            number(r.natural_slant_deg) == -(15 as real),
    {
        proof {
            known_hands_in_numbers();
        }
        HandProfile {
            natural_slant_deg: single(0xC170_0000),  // -15
            pressure_sensitivity: single(TWO_AND_A_HALF),
            ..HandProfile::default()
        }
    }

    /// A right-handed writer of Myanmar script: more upright, with a stronger
    /// answer to pressure.
    pub fn myanmar_right_handed() -> (r: HandProfile)
        ensures
            r == (HandProfile {
                natural_slant_deg: single(0xC0A0_0000),  // -5
                pressure_sensitivity: single(0x404C_CCCD),  // 3.2
                tremor_freq_hz: single(0x4108_0000),  // 8.5
                ..HandProfile::standard()
            }),
            number(r.natural_slant_deg) == -(5 as real),
            near(r.pressure_sensitivity, (32 as real) / (10 as real), parts(4)),
            number(r.tremor_freq_hz) == (17 as real) / (2 as real),
    {
        proof {
            known_hands_in_numbers();
        }
        HandProfile {
            natural_slant_deg: single(0xC0A0_0000),  // -5
            pressure_sensitivity: single(0x404C_CCCD),  // 3.2
            tremor_freq_hz: single(0x4108_0000),  // 8.5
            ..HandProfile::default()
        }
    }

    /// A left-handed writer of Latin script: the slant mirrored, the tremor a
    /// little larger.
    pub fn latin_left_handed() -> (r: HandProfile)
        ensures
            r == (HandProfile {
                natural_slant_deg: single(0x41A0_0000),  // 20
                tremor_base_amplitude_mm: single(TENTH),
                ..HandProfile::standard()
            }),
            number(r.natural_slant_deg) == 20 as real,
            near(r.tremor_base_amplitude_mm, (1 as real) / (10 as real), ulp()),
    {
        proof {
            known_hands_in_numbers();
        }
        HandProfile {
            natural_slant_deg: single(0x41A0_0000),  // 20
            tremor_base_amplitude_mm: single(TENTH),
            ..HandProfile::default()
        }
    }
}

impl Default for HandProfile {
    fn default() -> (r: HandProfile)
        ensures
            r == HandProfile::standard(),
    {
        HandProfile {
            tremor_freq_hz: single(0x4110_0000),  // 9
            tremor_base_amplitude_mm: single(0x3DA3_D70A),  // 0.08
            fatigue_per_minute: single(0x3E19_999A),  // 0.15
            max_fatigue: single(0x4040_0000),  // 3
            natural_slant_deg: single(0xC140_0000),  // -12
            pressure_sensitivity: single(TWO_AND_A_HALF),
            pressure_threshold: single(0x3D4C_CCCD),  // 0.05
            pressure_smooth_ms: single(0x4180_0000),  // 16
            velocity_width_scale: single(THREE_TENTHS),
        }
    }
}

/// The pen as the last sample left it. Sixteen words.
#[derive(Clone, Copy, Debug, PartialEq)]
pub struct PenState {
    /// Position on the screen, in millimetres.
    pub pos_mm: [Single; 2],
    /// Velocity between the last two samples, in millimetres per second.
    pub velocity_mm_s: [Single; 2],
    /// Pressure above the threshold, from 0 to 1.
    pub pressure: Single,
    /// Azimuth of the pen in radians, clockwise from vertical.
    pub slant_azimuth_rad: Single,
    /// Altitude of the pen in radians, from flat to upright.
    pub slant_altitude_rad: Single,
    /// Tremor multiplier.
    pub fatigue: Single,
    /// Seconds since the session started.
    pub session_time_secs: Single,
    /// Seconds since the stroke started.
    pub stroke_time_secs: Single,
    /// 1 while the pen is down, 0 otherwise.
    pub is_down: u32,
    /// Phase of the tremor oscillator.
    pub tremor_phase: Single,
    /// Smoothed raw pressure.
    pub prev_raw_pressure: Single,
    /// Fills the state up to sixteen words.
    pub _pad: [Single; 3],
}

impl PenState {
    /// The pen at rest, before its first sample.
    pub open spec fn at_rest() -> PenState {
        PenState {
            pos_mm: [single(ZERO), single(ZERO)],
            velocity_mm_s: [single(ZERO), single(ZERO)],
            pressure: single(ZERO),
            slant_azimuth_rad: single(ZERO),
            slant_altitude_rad: single(EIGHTH_TURN),
            fatigue: single(ONE),
            session_time_secs: single(ZERO),
            stroke_time_secs: single(ZERO),
            is_down: 0,
            tremor_phase: single(ZERO),
            prev_raw_pressure: single(ZERO),
            _pad: [single(ZERO), single(ZERO), single(ZERO)],
        }
    }

    /// The pen at rest. The two instants leave no trace in the state.
    pub fn new(now: u64, session_start: u64) -> (r: PenState)
        ensures
            r == PenState::at_rest(),
    {
        PenState {
            pos_mm: [single(ZERO), single(ZERO)],
            velocity_mm_s: [single(ZERO), single(ZERO)],
            pressure: single(ZERO),
            slant_azimuth_rad: single(ZERO),
            slant_altitude_rad: single(EIGHTH_TURN),
            fatigue: single(ONE),
            session_time_secs: single(ZERO),
            stroke_time_secs: single(ZERO),
            is_down: 0,
            tremor_phase: single(ZERO),
            prev_raw_pressure: single(ZERO),
            _pad: [single(ZERO), single(ZERO), single(ZERO)],
        }
    }

    /// Whether the pen is down.
    pub fn is_down_bool(&self) -> (r: bool)
        ensures
            r == (self.is_down != 0),
    {
        self.is_down != 0
    }

    /// Puts the pen down or lifts it.
    pub fn set_down(&mut self, down: bool)
        ensures
            *final(self) == (PenState { is_down: if down { 1 } else { 0 }, ..*old(self) }),
            final(self).is_down != 0 <==> down,
    {
        self.is_down = if down { 1 } else { 0 };
    }

    /// The words of the state, in the order of its fields.
    pub open spec fn words(self) -> Seq<u32> {
        seq![
            self.pos_mm[0].bits,
            self.pos_mm[1].bits,
            self.velocity_mm_s[0].bits,
            self.velocity_mm_s[1].bits,
            self.pressure.bits,
            self.slant_azimuth_rad.bits,
            self.slant_altitude_rad.bits,
            self.fatigue.bits,
            self.session_time_secs.bits,
            self.stroke_time_secs.bits,
            self.is_down,
            self.tremor_phase.bits,
            self.prev_raw_pressure.bits,
            self._pad[0].bits,
            self._pad[1].bits,
            self._pad[2].bits,
        ]
    }

    /// The bytes of the state, as a graphics buffer takes them.
    pub fn to_bytes(&self) -> (r: Vec<u8>)
        ensures
            is_image(self.words(), r@),
            r@.len() == 64,
    {
        let words: [u32; 16] = [
            self.pos_mm[0].bits,
            self.pos_mm[1].bits,
            self.velocity_mm_s[0].bits,
            self.velocity_mm_s[1].bits,
            self.pressure.bits,
            self.slant_azimuth_rad.bits,
            self.slant_altitude_rad.bits,
            self.fatigue.bits,
            self.session_time_secs.bits,
            self.stroke_time_secs.bits,
            self.is_down,
            self.tremor_phase.bits,
            self.prev_raw_pressure.bits,
            self._pad[0].bits,
            self._pad[1].bits,
            self._pad[2].bits,
        ];
        assert(words@ == self.words());
        vstd::slice::slice_to_vec(words_as_bytes(words.as_slice()))
    }
}

/// One deformed point of a stroke.
#[derive(Clone, Copy, Debug, PartialEq)]
pub struct StrokePoint {
    /// Position in millimetres, tremor applied.
    pub pos_mm_x: Single,
    pub pos_mm_y: Single,
    /// Pressure above the threshold, from 0 to 1.
    pub pressure: Single,
    /// Seconds since the session started.
    pub timestamp_secs: Single,
    /// Width of the ink, in millimetres.
    pub width_mm: Single,
    /// Width over height of the nib.
    pub aspect_ratio: Single,
    /// Azimuth of the pen when it wrote the point.
    pub slant_azimuth_rad: Single,
    /// Altitude of the pen when it wrote the point.
    pub slant_altitude_rad: Single,
}

impl StrokePoint {
    /// The vertex of the point: position, pressure and time.
    pub fn to_vertex(&self) -> (r: [Single; 4])
        ensures
            r == [self.pos_mm_x, self.pos_mm_y, self.pressure, self.timestamp_secs],
    {
        [self.pos_mm_x, self.pos_mm_y, self.pressure, self.timestamp_secs]
    }

    /// The words of the point, in the order of its fields.
    pub open spec fn words(self) -> Seq<u32> {
        seq![
            self.pos_mm_x.bits,
            self.pos_mm_y.bits,
            self.pressure.bits,
            self.timestamp_secs.bits,
            self.width_mm.bits,
            self.aspect_ratio.bits,
            self.slant_azimuth_rad.bits,
            self.slant_altitude_rad.bits,
        ]
    }

    /// The bytes of the point, as a graphics buffer takes them.
    pub fn to_bytes(&self) -> (r: Vec<u8>)
        ensures
            is_image(self.words(), r@),
            r@.len() == 32,
    {
        let words: [u32; 8] = [
            self.pos_mm_x.bits,
            self.pos_mm_y.bits,
            self.pressure.bits,
            self.timestamp_secs.bits,
            self.width_mm.bits,
            self.aspect_ratio.bits,
            self.slant_azimuth_rad.bits,
            self.slant_altitude_rad.bits,
        ];
        assert(words@ == self.words());
        vstd::slice::slice_to_vec(words_as_bytes(words.as_slice()))
    }
}

/// One raw touch sample.
#[derive(Clone, Copy, Debug, PartialEq)]
pub struct RawSample {
    /// Pressure as the screen reports it, from 0 to 1.
    pub pressure: Single,
    /// Azimuth of the pen, in radians.
    pub azimuth: Single,
    /// Altitude of the pen, in radians; nothing or nearly nothing for a finger.
    pub altitude: Single,
    /// Position in pixels.
    pub pos_px: [Single; 2],
    /// When the sample was taken.
    pub timestamp: u64,
}

/// What an engine carries from one sample to the next.
pub struct Track {
    pub profile: HandProfile,
    pub state: PenState,
    pub dpi_mm: Single,
    pub session_start: u64,
    pub stroke_start: u64,
}

/// A rested pen whose session starts `now`.
pub open spec fn fresh(profile: HandProfile, dpi_mm: Single, now: u64) -> Track {
    Track { profile, state: PenState::at_rest(), dpi_mm, session_start: now, stroke_start: now }
}

/// The time from one instant to a later one; none where it is not later.
pub open spec fn since(later: u64, earlier: u64) -> u64 {
    if later > earlier {
        (later - earlier) as u64
    } else {
        0
    }
}

/// Seconds between the sample before and this one, at least a tenth of a
/// millisecond. The sample before was taken `session_time_secs` into the session.
pub open spec fn elapsed<F: Fn(Op, u64, u64) -> u64>(
    unit: FloatUnit<F>,
    track: Track,
    timestamp: u64,
) -> Single {
    let last = unit.in_nanos(track.state.session_time_secs);
    unit.in_seconds(since(since(timestamp, track.session_start), last)).larger(
        single(TEN_THOUSANDTH),
    )
}

/// The exponential moving average of the raw pressure.
pub open spec fn smoothed<F: Fn(Op, u64, u64) -> u64>(
    unit: FloatUnit<F>,
    profile: HandProfile,
    previous: Single,
    raw: Single,
    dt: Single,
) -> Single {
    let alpha = unit.over(unit.times(dt, single(THOUSAND)), profile.pressure_smooth_ms).smaller(
        single(ONE),
    );
    unit.plus(unit.times(previous, unit.minus(single(ONE), alpha)), unit.times(raw, alpha))
}

/// The pressure above the threshold, scaled to reach from 0 to 1; zero up to the
/// threshold.
pub open spec fn contact<F: Fn(Op, u64, u64) -> u64>(
    unit: FloatUnit<F>,
    profile: HandProfile,
    smoothed: Single,
) -> Single {
    if profile.pressure_threshold.precedes(smoothed) {
        unit.over(
            unit.minus(smoothed, profile.pressure_threshold),
            unit.minus(single(ONE), profile.pressure_threshold),
        ).smaller(single(ONE))
    } else {
        single(ZERO)
    }
}

/// The length of a vector.
pub open spec fn length<F: Fn(Op, u64, u64) -> u64>(unit: FloatUnit<F>, v: [Single; 2]) -> Single {
    unit.root(unit.plus(unit.times(v[0], v[0]), unit.times(v[1], v[1])))
}

/// Azimuth and altitude of the pen. A pen reports them. For a finger the slant of
/// the hand is blended with the direction of a fast enough movement.
pub open spec fn slant<F: Fn(Op, u64, u64) -> u64>(
    unit: FloatUnit<F>,
    profile: HandProfile,
    raw: RawSample,
    velocity: [Single; 2],
) -> (Single, Single) {
    if single(HUNDREDTH).precedes(raw.altitude) {
        (raw.azimuth, raw.altitude.clamped(single(ZERO), single(QUARTER_TURN)))
    } else {
        let speed = length(unit, velocity);
        let lean = if single(ONE).precedes(speed) {
            unit.arctangent(unit.over(velocity[0], speed))
        } else {
            single(ZERO)
        };
        (
            unit.plus(
                unit.times(unit.in_radians(profile.natural_slant_deg), single(EIGHT_TENTHS)),
                unit.times(lean, single(TWO_TENTHS)),
            ),
            single(SIXTH_TURN),
        )
    }
}

/// The tremor multiplier after writing a stroke and a session for so long.
pub open spec fn fatigue<F: Fn(Op, u64, u64) -> u64>(
    unit: FloatUnit<F>,
    profile: HandProfile,
    session_secs: Single,
    stroke_secs: Single,
) -> Single {
    let session_mins = unit.over(session_secs, single(SIXTY));
    let stroke_mins = unit.over(stroke_secs, single(SIXTY));
    let active = unit.plus(single(ONE), unit.times(stroke_mins, profile.fatigue_per_minute));
    let global = unit.plus(
        single(ONE),
        unit.times(
            unit.times(session_mins, profile.fatigue_per_minute),
            single(THREE_TENTHS),
        ),
    );
    unit.times(active, global).smaller(profile.max_fatigue)
}

/// The phase of the tremor, `dt` seconds on.
pub open spec fn advanced_phase<F: Fn(Op, u64, u64) -> u64>(
    unit: FloatUnit<F>,
    profile: HandProfile,
    phase: Single,
    dt: Single,
) -> Single {
    unit.plus(
        phase,
        unit.times(unit.times(single(FULL_TURN), profile.tremor_freq_hz), dt),
    )
}

/// How far the tremor moves the pen: across the movement where the pen is fast
/// enough, in a slowly turning direction otherwise.
pub open spec fn tremor<F: Fn(Op, u64, u64) -> u64>(
    unit: FloatUnit<F>,
    profile: HandProfile,
    velocity: [Single; 2],
    phase: Single,
    fatigue: Single,
) -> (Single, Single) {
    let amplitude = unit.times(profile.tremor_base_amplitude_mm, fatigue);
    let speed = length(unit, velocity);
    let (x, y) = if single(ONE).precedes(speed) {
        (unit.over(velocity[1], speed).negated(), unit.over(velocity[0], speed))
    } else {
        let angle = unit.times(phase, single(SEVEN_TENTHS));
        (unit.cosine(angle), unit.sine(angle))
    };
    (
        unit.times(unit.times(x, amplitude), unit.sine(phase)),
        unit.times(unit.times(y, amplitude), unit.sine(phase)),
    )
}

/// Width of the ink and aspect ratio of the nib.
pub open spec fn nib<F: Fn(Op, u64, u64) -> u64>(
    unit: FloatUnit<F>,
    profile: HandProfile,
    pressure: Single,
    altitude: Single,
    velocity: [Single; 2],
) -> (Single, Single) {
    let speed = length(unit, velocity);
    let upright = unit.over(altitude, single(QUARTER_TURN)).larger(single(TENTH));
    let base = unit.times(pressure, profile.pressure_sensitivity);
    let bonus = unit.times(
        unit.times(speed, profile.velocity_width_scale),
        single(HUNDREDTH),
    );
    let width = unit.times(unit.plus(base, bonus), upright);
    let aspect = unit.plus(
        single(ONE),
        unit.times(unit.minus(single(ONE), upright), single(TWO)),
    );
    (width.larger(single(TENTH)), aspect.larger(single(ONE)))
}

/// Where a sample puts the pen, in millimetres.
pub open spec fn position<F: Fn(Op, u64, u64) -> u64>(
    unit: FloatUnit<F>,
    track: Track,
    raw: RawSample,
) -> [Single; 2] {
    [unit.over(raw.pos_px[0], track.dpi_mm), unit.over(raw.pos_px[1], track.dpi_mm)]
}

/// The velocity that took the pen from where it was to `to`.
pub open spec fn velocity<F: Fn(Op, u64, u64) -> u64>(
    unit: FloatUnit<F>,
    from: [Single; 2],
    to: [Single; 2],
    dt: Single,
) -> [Single; 2] {
    [
        unit.over(unit.minus(to[0], from[0]), dt),
        unit.over(unit.minus(to[1], from[1]), dt),
    ]
}

/// The pressure that a sample leaves above the threshold.
pub open spec fn pressure_after<F: Fn(Op, u64, u64) -> u64>(
    unit: FloatUnit<F>,
    track: Track,
    raw: RawSample,
) -> Single {
    contact(
        unit,
        track.profile,
        smoothed(
            unit,
            track.profile,
            track.state.prev_raw_pressure,
            raw.pressure,
            elapsed(unit, track, raw.timestamp),
        ),
    )
}

/// The state after a sample, as far as it is the same for a pen that hovers and
/// one that writes.
pub open spec fn moved<F: Fn(Op, u64, u64) -> u64>(
    unit: FloatUnit<F>,
    track: Track,
    raw: RawSample,
) -> PenState {
    let dt = elapsed(unit, track, raw.timestamp);
    let to = position(unit, track, raw);
    PenState {
        pos_mm: to,
        velocity_mm_s: velocity(unit, track.state.pos_mm, to, dt),
        prev_raw_pressure: smoothed(
            unit,
            track.profile,
            track.state.prev_raw_pressure,
            raw.pressure,
            dt,
        ),
        pressure: pressure_after(unit, track, raw),
        session_time_secs: unit.in_seconds(since(raw.timestamp, track.session_start)),
        ..track.state
    }
}

/// The track after a sample that leaves the pen in the air.
pub open spec fn hover<F: Fn(Op, u64, u64) -> u64>(
    unit: FloatUnit<F>,
    track: Track,
    raw: RawSample,
) -> Track {
    Track {
        state: PenState {
            pressure: single(ZERO),
            is_down: 0,
            ..moved(unit, track, raw)
        },
        ..track
    }
}

/// The track after a sample with the pen on the paper. A pen that was in the air
/// starts a stroke.
pub open spec fn touch<F: Fn(Op, u64, u64) -> u64>(
    unit: FloatUnit<F>,
    track: Track,
    raw: RawSample,
) -> Track {
    let dt = elapsed(unit, track, raw.timestamp);
    let state = moved(unit, track, raw);
    let (azimuth, altitude) = slant(unit, track.profile, raw, state.velocity_mm_s);
    let goes_on = track.state.is_down != 0;
    let stroke_start = if goes_on {
        track.stroke_start
    } else {
        raw.timestamp
    };
    let stroke_secs = if goes_on {
        track.state.stroke_time_secs
    } else {
        single(ZERO)
    };
    Track {
        state: PenState {
            slant_azimuth_rad: azimuth,
            slant_altitude_rad: altitude,
            fatigue: fatigue(
                unit,
                track.profile,
                track.state.session_time_secs,
                stroke_secs,
            ),
            stroke_time_secs: unit.in_seconds(since(raw.timestamp, stroke_start)),
            is_down: 1,
            tremor_phase: advanced_phase(unit, track.profile, track.state.tremor_phase, dt),
            ..state
        },
        stroke_start,
        ..track
    }
}

/// The point that a pen on the paper writes.
pub open spec fn written<F: Fn(Op, u64, u64) -> u64>(
    unit: FloatUnit<F>,
    before: Track,
    after: PenState,
) -> StrokePoint {
    let (dx, dy) = tremor(
        unit,
        before.profile,
        after.velocity_mm_s,
        after.tremor_phase,
        after.fatigue,
    );
    let (width, aspect) = nib(
        unit,
        before.profile,
        after.pressure,
        after.slant_altitude_rad,
        after.velocity_mm_s,
    );
    StrokePoint {
        pos_mm_x: unit.plus(after.pos_mm[0], dx),
        pos_mm_y: unit.plus(after.pos_mm[1], dy),
        pressure: after.pressure,
        timestamp_secs: after.session_time_secs,
        width_mm: width,
        aspect_ratio: aspect,
        slant_azimuth_rad: after.slant_azimuth_rad,
        slant_altitude_rad: after.slant_altitude_rad,
    }
}

/// One sample: the track after it, and the point that it writes while the pen is
/// down.
pub open spec fn step<F: Fn(Op, u64, u64) -> u64>(
    unit: FloatUnit<F>,
    track: Track,
    raw: RawSample,
) -> (Track, Option<StrokePoint>) {
    if single(ZERO).precedes(pressure_after(unit, track, raw)) {
        let after = touch(unit, track, raw);
        (after, Some(written(unit, track, after.state)))
    } else {
        (hover(unit, track, raw), None)
    }
}

fn elapsed_since(later: u64, earlier: u64) -> (r: u64)
    ensures
        r == since(later, earlier),
{
    if later > earlier {
        later - earlier
    } else {
        0
    }
}

fn hypot<F: Fn(Op, u64, u64) -> u64>(unit: &FloatUnit<F>, v: [Single; 2]) -> (r: Single)
    ensures
        r == length(*unit, v),
{
    unit.sqrt(unit.add(unit.mul(v[0], v[0]), unit.mul(v[1], v[1])))
}

fn smooth_pressure<F: Fn(Op, u64, u64) -> u64>(
    unit: &FloatUnit<F>,
    profile: &HandProfile,
    previous: Single,
    raw: Single,
    dt: Single,
) -> (r: Single)
    ensures
        r == smoothed(*unit, *profile, previous, raw, dt),
{
    let alpha = unit.div(unit.mul(dt, single(THOUSAND)), profile.pressure_smooth_ms).min(
        single(ONE),
    );
    unit.add(unit.mul(previous, unit.sub(single(ONE), alpha)), unit.mul(raw, alpha))
}

fn contact_pressure<F: Fn(Op, u64, u64) -> u64>(
    unit: &FloatUnit<F>,
    profile: &HandProfile,
    smoothed: Single,
) -> (r: Single)
    ensures
        r == contact(*unit, *profile, smoothed),
{
    if profile.pressure_threshold.less(smoothed) {
        unit.div(
            unit.sub(smoothed, profile.pressure_threshold),
            unit.sub(single(ONE), profile.pressure_threshold),
        ).min(single(ONE))
    } else {
        single(ZERO)
    }
}

fn pen_slant<F: Fn(Op, u64, u64) -> u64>(
    unit: &FloatUnit<F>,
    profile: &HandProfile,
    raw: &RawSample,
    velocity: [Single; 2],
) -> (r: (Single, Single))
    ensures
        r == slant(*unit, *profile, *raw, velocity),
{
    if single(HUNDREDTH).less(raw.altitude) {
        proof {
            unsigned_singles_are_ordered(single(ZERO), single(QUARTER_TURN));
        }
        (raw.azimuth, raw.altitude.clamp(single(ZERO), single(QUARTER_TURN)))
    } else {
        let speed = hypot(unit, velocity);
        let lean = if single(ONE).less(speed) {
            unit.atan(unit.div(velocity[0], speed))
        } else {
            single(ZERO)
        };
        (
            unit.add(
                unit.mul(unit.radians(profile.natural_slant_deg), single(EIGHT_TENTHS)),
                unit.mul(lean, single(TWO_TENTHS)),
            ),
            single(SIXTH_TURN),
        )
    }
}

fn hand_fatigue<F: Fn(Op, u64, u64) -> u64>(
    unit: &FloatUnit<F>,
    profile: &HandProfile,
    session_secs: Single,
    stroke_secs: Single,
) -> (r: Single)
    ensures
        r == fatigue(*unit, *profile, session_secs, stroke_secs),
{
    let session_mins = unit.div(session_secs, single(SIXTY));
    let stroke_mins = unit.div(stroke_secs, single(SIXTY));
    let active = unit.add(single(ONE), unit.mul(stroke_mins, profile.fatigue_per_minute));
    let global = unit.add(
        single(ONE),
        unit.mul(unit.mul(session_mins, profile.fatigue_per_minute), single(THREE_TENTHS)),
    );
    unit.mul(active, global).min(profile.max_fatigue)
}

fn tremor_offset<F: Fn(Op, u64, u64) -> u64>(
    unit: &FloatUnit<F>,
    profile: &HandProfile,
    velocity: [Single; 2],
    phase: Single,
    fatigue: Single,
) -> (r: (Single, Single))
    ensures
        r == tremor(*unit, *profile, velocity, phase, fatigue),
{
    let amplitude = unit.mul(profile.tremor_base_amplitude_mm, fatigue);
    let speed = hypot(unit, velocity);
    let (x, y) = if single(ONE).less(speed) {
        (unit.div(velocity[1], speed).neg(), unit.div(velocity[0], speed))
    } else {
        let angle = unit.mul(phase, single(SEVEN_TENTHS));
        (unit.cos(angle), unit.sin(angle))
    };
    let wave = unit.sin(phase);
    (unit.mul(unit.mul(x, amplitude), wave), unit.mul(unit.mul(y, amplitude), wave))
}

fn ink_nib<F: Fn(Op, u64, u64) -> u64>(
    unit: &FloatUnit<F>,
    profile: &HandProfile,
    pressure: Single,
    altitude: Single,
    velocity: [Single; 2],
) -> (r: (Single, Single))
    ensures
        r == nib(*unit, *profile, pressure, altitude, velocity),
{
    let speed = hypot(unit, velocity);
    let upright = unit.div(altitude, single(QUARTER_TURN)).max(single(TENTH));
    let base = unit.mul(pressure, profile.pressure_sensitivity);
    let bonus = unit.mul(unit.mul(speed, profile.velocity_width_scale), single(HUNDREDTH));
    let width = unit.mul(unit.add(base, bonus), upright);
    let aspect = unit.add(single(ONE), unit.mul(unit.sub(single(ONE), upright), single(TWO)));
    (width.max(single(TENTH)), aspect.max(single(ONE)))
}

/// The samples one after the other: the track after the last, and the points that
/// they write, in order.
pub open spec fn run<F: Fn(Op, u64, u64) -> u64>(
    unit: FloatUnit<F>,
    track: Track,
    samples: Seq<RawSample>,
) -> (Track, Seq<StrokePoint>)
    decreases samples.len(),
{
    if samples.len() == 0 {
        (track, Seq::empty())
    } else {
        let (before, points) = run(unit, track, samples.drop_last());
        let (after, point) = step(unit, before, samples.last());
        match point {
            Some(p) => (after, points.push(p)),
            None => (after, points),
        }
    }
}

/// The track after a pause: half of what the fatigue has above one is gone.
pub open spec fn paused<F: Fn(Op, u64, u64) -> u64>(unit: FloatUnit<F>, track: Track) -> Track {
    Track {
        state: PenState {
            fatigue: unit.plus(
                single(ONE),
                unit.times(unit.minus(track.state.fatigue, single(ONE)), single(HALF)),
            ),
            ..track.state
        },
        ..track
    }
}

/// The track once it resumes: both clocks start again `now`.
pub open spec fn resumed(track: Track, now: u64) -> Track {
    Track {
        state: PenState {
            session_time_secs: single(ZERO),
            stroke_time_secs: single(ZERO),
            ..track.state
        },
        session_start: now,
        stroke_start: now,
        ..track
    }
}

/// The pen state machine.
pub struct PhysicsEngine {
    pub profile: HandProfile,
    pub state: PenState,
    /// Pixels per millimetre.
    pub dpi_mm: Single,
    /// When the session started.
    pub session_start: u64,
    /// When the stroke started.
    pub stroke_start: u64,
    /// The points of the last batch.
    pub batch_buffer: Vec<StrokePoint>,
}

impl View for PhysicsEngine {
    type V = Track;

    open spec fn view(&self) -> Track {
        Track {
            profile: self.profile,
            state: self.state,
            dpi_mm: self.dpi_mm,
            session_start: self.session_start,
            stroke_start: self.stroke_start,
        }
    }
}

impl PhysicsEngine {
    /// A rested engine whose session starts `now`.
    pub fn new(profile: HandProfile, dpi_mm: Single, now: u64) -> (r: PhysicsEngine)
        ensures
            r@ == fresh(profile, dpi_mm, now),
            r.batch_buffer@ == Seq::<StrokePoint>::empty(),
            has_sound_limits(profile) ==> is_in_range(r@),
    {
        proof {
            constants_stand_for();
        }
        PhysicsEngine {
            profile,
            state: PenState::new(now, now),
            dpi_mm,
            session_start: now,
            stroke_start: now,
            batch_buffer: Vec::with_capacity(1024),
        }
    }

    /// Starts a new session `now`, with the same profile and screen.
    pub fn reset(&mut self, now: u64)
        ensures
            final(self)@ == fresh(old(self).profile, old(self).dpi_mm, now),
            final(self).batch_buffer@ == Seq::<StrokePoint>::empty(),
            has_sound_limits(old(self).profile) ==> is_in_range(final(self)@),
    {
        proof {
            constants_stand_for();
        }
        self.session_start = now;
        self.stroke_start = now;
        self.state = PenState::new(now, now);
        self.batch_buffer.clear();
    }

    /// Takes one raw sample. Gives the point that the pen writes, or `None` while
    /// the pen hovers.
    pub fn sample<F: Fn(Op, u64, u64) -> u64>(
        &mut self,
        unit: &FloatUnit<F>,
        raw: RawSample,
    ) -> (r: Option<StrokePoint>)
        ensures
            (final(self)@, r) == step(*unit, old(self)@, raw),
            r is Some <==> final(self).state.is_down != 0,
            final(self).batch_buffer == old(self).batch_buffer,
            rounds_soundly(*unit) && has_sound_limits(old(self).profile) && is_in_range(old(self)@)
                ==> is_in_range(final(self)@),
    {
        let ghost track = self@;
        proof {
            if rounds_soundly(*unit) && has_sound_limits(track.profile) && is_in_range(track) {
                a_call_keeps_the_range(*unit, track, PenCall::Sample { raw });
            }
        }
        let last = unit.nanos(self.state.session_time_secs);
        let in_session = elapsed_since(raw.timestamp, self.session_start);
        let dt = unit.seconds(elapsed_since(in_session, last)).max(single(TEN_THOUSANDTH));
        assert(dt == elapsed(*unit, track, raw.timestamp));

        let from = self.state.pos_mm;
        let to = [unit.div(raw.pos_px[0], self.dpi_mm), unit.div(raw.pos_px[1], self.dpi_mm)];
        assert(to == position(*unit, track, raw));
        self.state.velocity_mm_s = [
            unit.div(unit.sub(to[0], from[0]), dt),
            unit.div(unit.sub(to[1], from[1]), dt),
        ];
        assert(self.state.velocity_mm_s == velocity(*unit, from, to, dt));
        self.state.pos_mm = to;

        let smoothed_raw = smooth_pressure(
            unit,
            &self.profile,
            self.state.prev_raw_pressure,
            raw.pressure,
            dt,
        );
        self.state.prev_raw_pressure = smoothed_raw;
        let pressure = contact_pressure(unit, &self.profile, smoothed_raw);

        let was_down = self.state.is_down_bool();
        self.state.set_down(single(ZERO).less(pressure));
        if self.state.is_down_bool() && !was_down {
            self.stroke_start = raw.timestamp;
            self.state.stroke_time_secs = single(ZERO);
        }
        if !self.state.is_down_bool() {
            self.state.pressure = single(ZERO);
            self.state.session_time_secs = unit.seconds(in_session);
            return None;
        }
        let (azimuth, altitude) = pen_slant(
            unit,
            &self.profile,
            &raw,
            self.state.velocity_mm_s,
        );
        self.state.slant_azimuth_rad = azimuth;
        self.state.slant_altitude_rad = altitude;

        self.state.fatigue = hand_fatigue(
            unit,
            &self.profile,
            self.state.session_time_secs,
            self.state.stroke_time_secs,
        );

        self.state.tremor_phase = unit.add(
            self.state.tremor_phase,
            unit.mul(unit.mul(single(FULL_TURN), self.profile.tremor_freq_hz), dt),
        );
        let (dx, dy) = tremor_offset(
            unit,
            &self.profile,
            self.state.velocity_mm_s,
            self.state.tremor_phase,
            self.state.fatigue,
        );
        let (width, aspect) = ink_nib(
            unit,
            &self.profile,
            pressure,
            self.state.slant_altitude_rad,
            self.state.velocity_mm_s,
        );
        self.state.session_time_secs = unit.seconds(in_session);
        let point = StrokePoint {
            pos_mm_x: unit.add(self.state.pos_mm[0], dx),
            pos_mm_y: unit.add(self.state.pos_mm[1], dy),
            pressure,
            timestamp_secs: self.state.session_time_secs,
            width_mm: width,
            aspect_ratio: aspect,
            slant_azimuth_rad: self.state.slant_azimuth_rad,
            slant_altitude_rad: self.state.slant_altitude_rad,
        };

        self.state.pressure = pressure;
        self.state.stroke_time_secs = unit.seconds(
            elapsed_since(raw.timestamp, self.stroke_start),
        );
        assert(self@ == touch(*unit, track, raw));
        Some(point)
    }

    /// Takes several samples in order and gives the points that they write.
    pub fn sample_batch<F: Fn(Op, u64, u64) -> u64>(
        &mut self,
        unit: &FloatUnit<F>,
        samples: &[RawSample],
    ) -> (r: &[StrokePoint])
        ensures
            (final(self)@, r@) == run(*unit, old(self)@, samples@),
            final(self).batch_buffer@ == r@,
            rounds_soundly(*unit) && has_sound_limits(old(self).profile) && is_in_range(old(self)@)
                ==> is_in_range(final(self)@),
    {
        let ghost track = self@;
        self.batch_buffer.clear();
        let mut i: usize = 0;
        while i < samples.len()
            invariant
                i <= samples@.len(),
                (self@, self.batch_buffer@) == run(*unit, track, samples@.take(i as int)),
                self.profile == track.profile,
                rounds_soundly(*unit) && has_sound_limits(track.profile) && is_in_range(track)
                    ==> is_in_range(self@),
            decreases samples@.len() - i,
        {
            assert(samples@.take(i + 1).drop_last() == samples@.take(i as int));
            let point = self.sample(unit, samples[i]);
            if let Some(p) = point {
                self.batch_buffer.push(p);
            }
            i += 1;
        }
        assert(samples@.take(i as int) == samples@);
        self.batch_buffer.as_slice()
    }

    /// The application pauses: half of the fatigue goes.
    pub fn pause<F: Fn(Op, u64, u64) -> u64>(&mut self, unit: &FloatUnit<F>)
        ensures
            final(self)@ == paused(*unit, old(self)@),
            final(self).batch_buffer == old(self).batch_buffer,
            rounds_soundly(*unit) && has_sound_limits(old(self).profile) && is_in_range(old(self)@)
                ==> is_in_range(final(self)@),
    {
        proof {
            if rounds_soundly(*unit) && has_sound_limits(self.profile) && is_in_range(self@) {
                a_call_keeps_the_range(*unit, self@, PenCall::Pause);
            }
        }
        self.state.fatigue = unit.add(
            single(ONE),
            unit.mul(unit.sub(self.state.fatigue, single(ONE)), single(HALF)),
        );
    }

    /// The application resumes: both clocks start again `now`.
    pub fn resume(&mut self, now: u64)
        ensures
            final(self)@ == resumed(old(self)@, now),
            final(self).batch_buffer == old(self).batch_buffer,
            is_in_range(old(self)@) ==> is_in_range(final(self)@),
    {
        proof {
            constants_stand_for();
        }
        self.session_start = now;
        self.stroke_start = now;
        self.state.session_time_secs = single(ZERO);
        self.state.stroke_time_secs = single(ZERO);
    }
}

/// A point that the pen writes has a pressure above 0 and up to 1, an ink width
/// of at least a tenth of a millimetre, an aspect ratio of at least 1, and an
/// altitude between flat and upright.
pub proof fn a_point_keeps_its_ranges<F: Fn(Op, u64, u64) -> u64>(
    unit: FloatUnit<F>,
    track: Track,
    raw: RawSample,
)
    ensures
        step(unit, track, raw).1 matches Some(p) ==> {
            &&& single(ZERO).precedes(p.pressure)
            &&& !single(ONE).precedes(p.pressure)
            &&& !p.width_mm.not_a_number()
            &&& single(TENTH).value() <= p.width_mm.value()
            &&& !p.aspect_ratio.not_a_number()
            &&& single(ONE).value() <= p.aspect_ratio.value()
            &&& !p.slant_altitude_rad.not_a_number()
            &&& single(ZERO).value() <= p.slant_altitude_rad.value()
            &&& p.slant_altitude_rad.value() <= single(QUARTER_TURN).value()
        },
{
    unsigned_singles_are_ordered(single(ZERO), single(SIXTH_TURN));
    unsigned_singles_are_ordered(single(SIXTH_TURN), single(QUARTER_TURN));
}

/// While the pen is down the tremor multiplier does not exceed the cap of the
/// profile.
pub proof fn fatigue_is_capped<F: Fn(Op, u64, u64) -> u64>(
    unit: FloatUnit<F>,
    track: Track,
    raw: RawSample,
)
    requires
        !track.profile.max_fatigue.not_a_number(),
    ensures
        step(unit, track, raw).1 is Some ==> {
            let after = step(unit, track, raw).0.state.fatigue;
            !after.not_a_number() && after.value() <= track.profile.max_fatigue.value()
        },
{
}

/// A pressure counts as contact exactly where it is above the threshold, which lies from
/// 0 up to below 1, on an arithmetic that rounds soundly.
pub proof fn contact_is_pressure_above_the_threshold<F: Fn(Op, u64, u64) -> u64>(
    unit: FloatUnit<F>,
    profile: HandProfile,
    smoothed: Single,
)
    requires
        rounds_soundly(unit),
        finite(profile.pressure_threshold),
        0 <= profile.pressure_threshold.value() < single(ONE).value(),
    ensures
        single(ZERO).precedes(contact(unit, profile, smoothed))
            <==> profile.pressure_threshold.precedes(smoothed),
{
    constants_stand_for();
    let threshold = profile.pressure_threshold;
    if threshold.precedes(smoothed) {
        let above = unit.minus(smoothed, threshold);
        let range = unit.minus(single(ONE), threshold);
        differences_are_positive(unit, single(ONE), threshold);
        bounded_is_finite(range, single(ONE));
        let (y, u) = (range.value(), single(ONE).value());
        if finite(smoothed) {
            differences_are_positive(unit, smoothed, threshold);
            bounded_is_finite(above, smoothed);
            let x = above.value();
            assert(beside(unit.over(above, range), x * u, y));
            assert(x * y <= x * u) by (nonlinear_arith)
                requires
                    x > 0,
                    y <= u,
            ;
        } else {
            infinity_is_one(smoothed);
            assert(above == smoothed);
            assert(unit.over(above, range) == smoothed);
        }
    }
}

/// A sample leaves the pen down exactly where the pressure, smoothed with what came
/// before, is above the threshold.
pub proof fn the_pen_is_down_above_the_threshold<F: Fn(Op, u64, u64) -> u64>(
    unit: FloatUnit<F>,
    track: Track,
    raw: RawSample,
)
    requires
        rounds_soundly(unit),
        finite(track.profile.pressure_threshold),
        0 <= track.profile.pressure_threshold.value() < single(ONE).value(),
    ensures
        ({
            let after = step(unit, track, raw).0.state;
            after.is_down != 0 <==> track.profile.pressure_threshold.precedes(
                after.prev_raw_pressure,
            )
        }),
{
    contact_is_pressure_above_the_threshold(
        unit,
        track.profile,
        smoothed(
            unit,
            track.profile,
            track.state.prev_raw_pressure,
            raw.pressure,
            elapsed(unit, track, raw.timestamp),
        ),
    );
}

/// Something that an engine is told.
pub enum PenCall {
    /// A sample.
    Sample { raw: RawSample },
    /// The application pauses.
    Pause,
    /// The application resumes.
    Resume { now: u64 },
    /// A new session starts.
    Reset { now: u64 },
}

/// The track after one call.
pub open spec fn after_call<F: Fn(Op, u64, u64) -> u64>(
    unit: FloatUnit<F>,
    track: Track,
    call: PenCall,
) -> Track {
    match call {
        PenCall::Sample { raw } => step(unit, track, raw).0,
        PenCall::Pause => paused(unit, track),
        PenCall::Resume { now } => resumed(track, now),
        PenCall::Reset { now } => fresh(track.profile, track.dpi_mm, now),
    }
}

/// The track after several calls, one after the other.
pub open spec fn after_calls<F: Fn(Op, u64, u64) -> u64>(
    unit: FloatUnit<F>,
    track: Track,
    calls: Seq<PenCall>,
) -> Track
    decreases calls.len(),
{
    if calls.len() == 0 {
        track
    } else {
        after_call(unit, after_calls(unit, track, calls.drop_last()), calls.last())
    }
}

/// Whether the tremor multiplier lies between one and the cap of the profile, and the
/// clocks show times that are finite and not negative.
pub open spec fn is_in_range(track: Track) -> bool {
    &&& !track.state.fatigue.not_a_number()
    &&& single(ONE).value() <= track.state.fatigue.value() <= track.profile.max_fatigue.value()
    &&& finite(track.state.session_time_secs) && track.state.session_time_secs.value() >= 0
    &&& finite(track.state.stroke_time_secs) && track.state.stroke_time_secs.value() >= 0
}

/// Whether the rate of a profile is not negative and its cap is a number of at least one.
pub open spec fn has_sound_limits(profile: HandProfile) -> bool {
    &&& !profile.fatigue_per_minute.precedes(single(ZERO))
    &&& !profile.max_fatigue.not_a_number()
    &&& single(ONE).value() <= profile.max_fatigue.value()
}

/// The tremor multiplier of any time of writing lies between one and the cap.
proof fn fatigue_lies_in_range<F: Fn(Op, u64, u64) -> u64>(
    unit: FloatUnit<F>,
    profile: HandProfile,
    session_secs: Single,
    stroke_secs: Single,
)
    requires
        rounds_soundly(unit),
        has_sound_limits(profile),
        finite(session_secs) && session_secs.value() >= 0,
        finite(stroke_secs) && stroke_secs.value() >= 0,
    ensures
        ({
            let after = fatigue(unit, profile, session_secs, stroke_secs);
            &&& !after.not_a_number()
            &&& single(ONE).value() <= after.value() <= profile.max_fatigue.value()
        }),
{
    constants_stand_for();
    unsigned_singles_are_ordered(single(ONE), single(SIXTY));
    unsigned_singles_are_ordered(single(ZERO), single(THREE_TENTHS));
    let rate = profile.fatigue_per_minute;
    let session_mins = unit.over(session_secs, single(SIXTY));
    let stroke_mins = unit.over(stroke_secs, single(SIXTY));
    quotients_are_not_negative(unit, session_secs, single(SIXTY));
    quotients_are_not_negative(unit, stroke_secs, single(SIXTY));
    products_are_not_negative(unit, stroke_mins, rate);
    sums_with_one_are_at_least_one(unit, unit.times(stroke_mins, rate));
    products_are_not_negative(unit, session_mins, rate);
    products_are_not_negative(unit, unit.times(session_mins, rate), single(THREE_TENTHS));
    sums_with_one_are_at_least_one(
        unit,
        unit.times(unit.times(session_mins, rate), single(THREE_TENTHS)),
    );
    products_are_at_least_one(
        unit,
        unit.plus(single(ONE), unit.times(stroke_mins, rate)),
        unit.plus(
            single(ONE),
            unit.times(unit.times(session_mins, rate), single(THREE_TENTHS)),
        ),
    );
}

/// A call that finds the tremor multiplier between one and the cap of the profile leaves
/// it there, on an arithmetic that rounds soundly.
pub proof fn a_call_keeps_the_range<F: Fn(Op, u64, u64) -> u64>(
    unit: FloatUnit<F>,
    track: Track,
    call: PenCall,
)
    requires
        rounds_soundly(unit),
        has_sound_limits(track.profile),
        is_in_range(track),
    ensures
        is_in_range(after_call(unit, track, call)),
        after_call(unit, track, call).profile == track.profile,
{
    constants_stand_for();
    match call {
        PenCall::Sample { raw } => {
            fatigue_lies_in_range(
                unit,
                track.profile,
                track.state.session_time_secs,
                if track.state.is_down != 0 {
                    track.state.stroke_time_secs
                } else {
                    single(ZERO)
                },
            );
        },
        PenCall::Pause => {
            halving_the_excess_stays_between(unit, track.state.fatigue);
        },
        _ => {},
    }
}

/// The tremor multiplier never leaves the range from one to the cap of the profile,
/// whatever an engine is told and in whatever order, on an arithmetic that rounds
/// soundly. The rate of the profile must not be negative and its cap must not be below
/// one.
pub proof fn fatigue_stays_in_range<F: Fn(Op, u64, u64) -> u64>(
    unit: FloatUnit<F>,
    profile: HandProfile,
    dpi_mm: Single,
    now: u64,
    calls: Seq<PenCall>,
)
    requires
        rounds_soundly(unit),
        has_sound_limits(profile),
    ensures
        ({
            let track = after_calls(unit, fresh(profile, dpi_mm, now), calls);
            is_in_range(track) && track.profile == profile
        }),
    decreases calls.len(),
{
    constants_stand_for();
    if calls.len() > 0 {
        fatigue_stays_in_range(unit, profile, dpi_mm, now, calls.drop_last());
        a_call_keeps_the_range(
            unit,
            after_calls(unit, fresh(profile, dpi_mm, now), calls.drop_last()),
            calls.last(),
        );
    }
}

/// A sample writes a point exactly while the pen is down. A pen in the air has no
/// pressure, and keeps its slant, its fatigue, its tremor and its stroke.
pub proof fn a_hovering_pen_writes_nothing<F: Fn(Op, u64, u64) -> u64>(
    unit: FloatUnit<F>,
    track: Track,
    raw: RawSample,
)
    ensures
        ({
            let (after, point) = step(unit, track, raw);
            &&& after.state.is_down == if point is Some { 1u32 } else { 0u32 }
            &&& point is None ==> {
                &&& after.state.pressure == single(ZERO)
                &&& after.state.slant_azimuth_rad == track.state.slant_azimuth_rad
                &&& after.state.slant_altitude_rad == track.state.slant_altitude_rad
                &&& after.state.fatigue == track.state.fatigue
                &&& after.state.tremor_phase == track.state.tremor_phase
                &&& after.state.stroke_time_secs == track.state.stroke_time_secs
                &&& after.stroke_start == track.stroke_start
            }
        }),
{
}

/// No sample changes the profile, the screen or the start of the session. The
/// start of the stroke changes only where the pen comes down.
pub proof fn a_sample_keeps_its_setting<F: Fn(Op, u64, u64) -> u64>(
    unit: FloatUnit<F>,
    track: Track,
    raw: RawSample,
)
    ensures
        ({
            let (after, point) = step(unit, track, raw);
            &&& after.profile == track.profile
            &&& after.dpi_mm == track.dpi_mm
            &&& after.session_start == track.session_start
            &&& after.stroke_start == if point is Some && track.state.is_down == 0 {
                raw.timestamp
            } else {
                track.stroke_start
            }
        }),
{
}

/// A batch can be cut anywhere: its two parts, one after the other, leave the
/// same pen and write the same points.
pub proof fn batches_compose<F: Fn(Op, u64, u64) -> u64>(
    unit: FloatUnit<F>,
    track: Track,
    first: Seq<RawSample>,
    second: Seq<RawSample>,
)
    ensures
        ({
            let (middle, head) = run(unit, track, first);
            let (after, tail) = run(unit, middle, second);
            run(unit, track, first + second) == (after, head + tail)
        }),
    decreases second.len(),
{
    if second.len() == 0 {
        assert(first + second == first);
        let (middle, head) = run(unit, track, first);
        assert(head + Seq::<StrokePoint>::empty() == head);
    } else {
        batches_compose(unit, track, first, second.drop_last());
        assert((first + second).drop_last() == first + second.drop_last());
        assert((first + second).last() == second.last());
        let (middle, head) = run(unit, track, first);
        let (before, points) = run(unit, middle, second.drop_last());
        let (after, point) = step(unit, before, second.last());
        if let Some(p) = point {
            assert((head + points).push(p) == head + points.push(p));
        }
    }
}

/// A batch writes at most one point per sample.
pub proof fn a_batch_writes_at_most_its_samples<F: Fn(Op, u64, u64) -> u64>(
    unit: FloatUnit<F>,
    track: Track,
    samples: Seq<RawSample>,
)
    ensures
        run(unit, track, samples).1.len() <= samples.len(),
    decreases samples.len(),
{
    if samples.len() > 0 {
        a_batch_writes_at_most_its_samples(unit, track, samples.drop_last());
    }
}

/// A batch of one sample is that sample, and one of none changes and writes nothing. With
/// the law that batches can be cut anywhere this says what every batch does.
pub proof fn a_batch_of_one<F: Fn(Op, u64, u64) -> u64>(
    unit: FloatUnit<F>,
    track: Track,
    raw: RawSample,
)
    ensures
        ({
            let (after, point) = step(unit, track, raw);
            run(unit, track, seq![raw]) == (
                after,
                match point {
                    Some(p) => seq![p],
                    None => Seq::<StrokePoint>::empty(),
                },
            )
        }),
        run(unit, track, Seq::<RawSample>::empty()) == (track, Seq::<StrokePoint>::empty()),
{
    let one = seq![raw];
    assert(one.drop_last() == Seq::<RawSample>::empty());
    assert(run(unit, track, one.drop_last()) == (track, Seq::<StrokePoint>::empty()));
    let (after, point) = step(unit, track, raw);
    if let Some(p) = point {
        assert(Seq::<StrokePoint>::empty().push(p) == seq![p]);
    }
}

/// The words of a state stand in the order in which its fields are declared, sixteen of
/// them, and those of a point in the order of its fields, eight of them.
pub proof fn words_stand_in_order(state: PenState, point: StrokePoint)
    ensures
        state.words().len() == 16,
        state.words().take(2) == seq![state.pos_mm[0].bits, state.pos_mm[1].bits],
        state.words()[2] == state.velocity_mm_s[0].bits,
        state.words()[3] == state.velocity_mm_s[1].bits,
        state.words()[4] == state.pressure.bits,
        state.words()[5] == state.slant_azimuth_rad.bits,
        state.words()[6] == state.slant_altitude_rad.bits,
        state.words()[7] == state.fatigue.bits,
        state.words()[8] == state.session_time_secs.bits,
        state.words()[9] == state.stroke_time_secs.bits,
        state.words()[10] == state.is_down,
        state.words()[11] == state.tremor_phase.bits,
        state.words()[12] == state.prev_raw_pressure.bits,
        point.words().len() == 8,
        point.words().take(4) == seq![
            point.pos_mm_x.bits,
            point.pos_mm_y.bits,
            point.pressure.bits,
            point.timestamp_secs.bits,
        ],
        point.words()[4] == point.width_mm.bits,
        point.words()[5] == point.aspect_ratio.bits,
        point.words()[6] == point.slant_azimuth_rad.bits,
        point.words()[7] == point.slant_altitude_rad.bits,
{
}

} // verus!
