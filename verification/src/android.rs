//! Motion events of the Android platform as samples of the pen engine.

use crate::constants::{ONE, QUARTER_TURN, ZERO};
use crate::number::{magnitude_of_zero, single, unsigned_singles_are_ordered, Single};
use crate::physics::{run, step, PhysicsEngine, RawSample, StrokePoint};
use crate::unit::{FloatUnit, Op};
use vstd::prelude::*;

verus! {

/// The platform's number for the tilt axis of a pointer.
pub const AXIS_TILT: i32 = 25;

/// What a motion event tells of its first pointer.
#[derive(Clone, Copy, Debug, PartialEq)]
pub struct PointerReading {
    /// Position in pixels.
    pub x: Single,
    pub y: Single,
    /// Reported pressure, which may leave the range from 0 to 1.
    pub pressure: Single,
    /// Orientation in radians.
    pub orientation: Single,
    /// Value of the tilt axis, where the pointer has one.
    pub tilt: Option<Single>,
}

/// The sample of a pointer: its pressure brought into the range from 0 to 1, its
/// tilt into the range from flat to upright. A pointer without tilt counts as
/// flat.
pub open spec fn reading_to_sample(reading: PointerReading, now: u64) -> RawSample {
    let tilt = match reading.tilt {
        Some(t) => t,
        None => single(ZERO),
    };
    RawSample {
        pressure: reading.pressure.clamped(single(ZERO), single(ONE)),
        azimuth: reading.orientation,
        altitude: tilt.clamped(single(ZERO), single(QUARTER_TURN)),
        pos_px: [reading.x, reading.y],
        timestamp: now,
    }
}

/// Whatever a pointer reports in numbers, its sample has a pressure from 0 to 1 and an
/// altitude from flat to upright.
pub proof fn readings_come_into_range(reading: PointerReading, now: u64)
    requires
        !reading.pressure.not_a_number(),
        reading.tilt matches Some(tilt) ==> !tilt.not_a_number(),
    ensures
        ({
            let raw = reading_to_sample(reading, now);
            &&& single(ZERO).value() <= raw.pressure.value() <= single(ONE).value()
            &&& single(ZERO).value() <= raw.altitude.value() <= single(QUARTER_TURN).value()
        }),
{
    unsigned_singles_are_ordered(single(ZERO), single(ONE));
    unsigned_singles_are_ordered(single(ZERO), single(QUARTER_TURN));
}

/// Feeds the first pointer of a motion event to the engine.
pub fn motion_event_to_sample<F: Fn(Op, u64, u64) -> u64>(
    engine: &mut PhysicsEngine,
    unit: &FloatUnit<F>,
    reading: &PointerReading,
    now: u64,
) -> (r: Option<StrokePoint>)
    ensures
        (final(engine)@, r) == step(*unit, old(engine)@, reading_to_sample(*reading, now)),
        final(engine).batch_buffer == old(engine).batch_buffer,
{
    proof {
        unsigned_singles_are_ordered(single(ZERO), single(ONE));
        unsigned_singles_are_ordered(single(ZERO), single(QUARTER_TURN));
    }
    let tilt = match reading.tilt {
        Some(t) => t,
        None => single(ZERO),
    };
    let raw = RawSample {
        pressure: reading.pressure.clamp(single(ZERO), single(ONE)),
        azimuth: reading.orientation,
        altitude: tilt.clamp(single(ZERO), single(QUARTER_TURN)),
        pos_px: [reading.x, reading.y],
        timestamp: now,
    };
    engine.sample(unit, raw)
}

/// What a motion event told of its first pointer at an instant.
#[derive(Clone, Copy, Debug, PartialEq)]
pub struct TimedReading {
    pub reading: PointerReading,
    pub at: u64,
}

/// The instant of a past reading: as long before `now` as its time lies before that of
/// the event, at the earliest the origin. A reading that is not past counts as now.
pub open spec fn past_instant(now: u64, event_time: i64, past_time: i64) -> u64 {
    if past_time >= event_time {
        now
    } else if event_time - past_time >= now {
        0
    } else {
        (now - (event_time - past_time)) as u64
    }
}

/// The instant of a past reading. The times are those that the platform gives, in
/// nanoseconds.
pub fn instant_of(now: u64, event_time: i64, past_time: i64) -> (r: u64)
    ensures
        r == past_instant(now, event_time, past_time),
        r <= now,
{
    if past_time >= event_time {
        return now;
    }
    let before: i128 = event_time as i128 - past_time as i128;
    if before >= now as i128 {
        0
    } else {
        (now as i128 - before) as u64
    }
}

/// The samples of a motion event: its history, then what it tells now.
pub open spec fn event_samples(
    history: Seq<TimedReading>,
    reading: PointerReading,
    now: u64,
) -> Seq<RawSample> {
    Seq::new(
        history.len(),
        |i: int| reading_to_sample(history[i].reading, history[i].at),
    ).push(reading_to_sample(reading, now))
}

/// Feeds a motion event to the engine, its history first, and collects the points
/// that it writes.
pub fn motion_event_with_history<F: Fn(Op, u64, u64) -> u64>(
    engine: &mut PhysicsEngine,
    unit: &FloatUnit<F>,
    history: &[TimedReading],
    reading: &PointerReading,
    now: u64,
) -> (r: Vec<StrokePoint>)
    ensures
        (final(engine)@, r@) == run(
            *unit,
            old(engine)@,
            event_samples(history@, *reading, now),
        ),
        final(engine).batch_buffer == old(engine).batch_buffer,
{
    let ghost track = engine@;
    let ghost samples = event_samples(history@, *reading, now);
    let mut results: Vec<StrokePoint> = Vec::new();
    let mut i: usize = 0;
    assert(samples.take(0).len() == 0);
    while i < history.len()
        invariant
            i <= history@.len(),
            samples == event_samples(history@, *reading, now),
            (engine@, results@) == run(*unit, track, samples.take(i as int)),
            engine.batch_buffer == old(engine).batch_buffer,
        decreases history@.len() - i,
    {
        assert(samples.take(i + 1).drop_last() == samples.take(i as int));
        let point = motion_event_to_sample(engine, unit, &history[i].reading, history[i].at);
        if let Some(point) = point {
            results.push(point);
        }
        i += 1;
    }
    assert(samples.drop_last() == samples.take(i as int));
    if let Some(point) = motion_event_to_sample(engine, unit, reading, now) {
        results.push(point);
    }
    results
}

/// What a pointer reports within the ranges goes through as it is, and the sample is taken
/// at the instant that is given. A pressure beyond a range comes to its nearer end.
pub proof fn readings_in_range_stay(reading: PointerReading, now: u64)
    requires
        !reading.pressure.not_a_number(),
    ensures
        ({
            let raw = reading_to_sample(reading, now);
            let (pressure, full) = (reading.pressure, single(ONE));
            &&& raw.timestamp == now
            &&& raw.pos_px[0] == reading.x
            &&& raw.pos_px[1] == reading.y
            &&& raw.azimuth == reading.orientation
            &&& 0 <= pressure.value() <= full.value() ==> raw.pressure == pressure
            &&& pressure.value() < 0 ==> raw.pressure.value() == 0
            &&& pressure.value() > full.value() ==> raw.pressure == full
            &&& reading.tilt is None ==> raw.altitude.value() == 0
            &&& reading.tilt matches Some(tilt) ==> {
                &&& 0 <= tilt.value() <= single(QUARTER_TURN).value() ==> raw.altitude == tilt
                &&& !tilt.not_a_number() && tilt.value() < 0 ==> raw.altitude.value() == 0
                &&& !tilt.not_a_number() && tilt.value() > single(QUARTER_TURN).value()
                    ==> raw.altitude == single(QUARTER_TURN)
            }
        }),
{
    magnitude_of_zero(0, 23);
    unsigned_singles_are_ordered(single(ZERO), single(ONE));
    unsigned_singles_are_ordered(single(ZERO), single(QUARTER_TURN));
}

/// A past reading lies as long before now as its time before that of the event, where
/// that is not before the origin; a later reading is never earlier than one before it.
pub proof fn past_instants_keep_their_distance(now: u64, event_time: i64, past: i64, later: i64)
    requires
        past <= later,
    ensures
        past <= event_time && event_time - past <= now ==> now - past_instant(
            now,
            event_time,
            past,
        ) == event_time - past,
        past_instant(now, event_time, past) <= past_instant(now, event_time, later),
        past_instant(now, event_time, past) <= now,
        past_instant(now, event_time, event_time) == now,
{
}

/// A motion event gives one sample for each reading of its history, in order and at its
/// own instant, and then the one of now.
pub proof fn history_comes_first(history: Seq<TimedReading>, reading: PointerReading, now: u64)
    ensures
        event_samples(history, reading, now).len() == history.len() + 1,
        event_samples(history, reading, now).last() == reading_to_sample(reading, now),
        forall|i: int|
            0 <= i < history.len() ==> (#[trigger] event_samples(history, reading, now)[i])
                == reading_to_sample(history[i].reading, history[i].at),
{
}

} // verus!
