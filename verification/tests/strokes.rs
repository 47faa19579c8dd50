use handwriting::android::{
    instant_of, motion_event_to_sample, motion_event_with_history, PointerReading, TimedReading,
    AXIS_TILT,
};
use handwriting::ink::{build_ink_mesh, StrokeMeshBuilder};
use handwriting::number::{single, Single};
use handwriting::physics::{HandProfile, PenState, PhysicsEngine, RawSample, StrokePoint};
use handwriting::unit::{FloatUnit, Op};
use noise::{NoiseFn, Perlin};
use rand::{Rng, SeedableRng};
use rand_pcg::Pcg32;
use std::time::Duration;

fn s(bits: u64) -> f32 {
    f32::from_bits(bits as u32)
}

fn d(bits: u64) -> f64 {
    f64::from_bits(bits)
}

fn from_s(value: f32) -> u64 {
    value.to_bits() as u64
}

fn nanos(seconds: f32) -> u64 {
    match Duration::try_from_secs_f32(seconds) {
        Ok(time) => u64::try_from(time.as_nanos()).unwrap_or(u64::MAX),
        Err(_) if seconds > 0.0 => u64::MAX,
        Err(_) => 0,
    }
}

/// The operations in IEEE 754 arithmetic, with the noise tables of the standard
/// seed at hand.
fn ieee(tables: &[(u32, Perlin)], op: Op, a: u64, b: u64) -> u64 {
    match op {
        Op::Add => from_s(s(a) + s(b)),
        Op::Sub => from_s(s(a) - s(b)),
        Op::Mul => from_s(s(a) * s(b)),
        Op::Div => from_s(s(a) / s(b)),
        Op::Sqrt => from_s(s(a).sqrt()),
        Op::Sin => from_s(s(a).sin()),
        Op::Cos => from_s(s(a).cos()),
        Op::Atan => from_s(s(a).atan()),
        Op::Radians => from_s(s(a).to_radians()),
        Op::Seconds => from_s(Duration::from_nanos(a).as_secs_f32()),
        Op::Nanos => nanos(s(a)),
        Op::AddWide => (d(a) + d(b)).to_bits(),
        Op::SubWide => (d(a) - d(b)).to_bits(),
        Op::MulWide => (d(a) * d(b)).to_bits(),
        Op::DivWide => (d(a) / d(b)).to_bits(),
        Op::SinWide => d(a).sin().to_bits(),
        Op::CosWide => d(a).cos().to_bits(),
        Op::Count => (a as f64).to_bits(),
        Op::Integer => (a as i64 as f64).to_bits(),
        Op::Widen => (s(a) as f64).to_bits(),
        Op::Narrow => from_s(d(a) as f32),
        Op::Noise { seed } => {
            let at = [d(a), d(b), 0.0];
            match tables.iter().find(|(known, _)| *known == seed) {
                Some((_, table)) => table.get(at).to_bits(),
                None => Perlin::new(seed).get(at).to_bits(),
            }
        }
        Op::FiberAngle => Pcg32::seed_from_u64(a)
            .gen_range(0.0..std::f64::consts::PI)
            .to_bits(),
    }
}

fn unit() -> FloatUnit<impl Fn(Op, u64, u64) -> u64> {
    FloatUnit::new(|op: Op, a: u64, b: u64| ieee(&[], op, a, b))
}

fn f(value: f32) -> Single {
    single(value.to_bits())
}

fn v(value: Single) -> f32 {
    f32::from_bits(value.bits)
}

fn raw(pressure: f32, pos: [f32; 2], timestamp: u64) -> RawSample {
    RawSample {
        pressure: f(pressure),
        azimuth: f(0.0),
        altitude: f(0.0),
        pos_px: [f(pos[0]), f(pos[1])],
        timestamp,
    }
}

const MILLI: u64 = 1_000_000;

#[test]
fn test_profile_presets() {
    let latin = HandProfile::latin_right_handed();
    assert!(v(latin.natural_slant_deg) < 0.0);

    let myanmar = HandProfile::myanmar_right_handed();
    assert!(v(myanmar.pressure_sensitivity) > v(latin.pressure_sensitivity));
}

#[test]
fn test_event_driven_simulation() {
    let unit = unit();
    let start = 7_000 * MILLI;
    let mut engine = PhysicsEngine::new(HandProfile::default(), f(25.4 * 2.0), start);

    let mut points = Vec::new();
    for i in 0..20 {
        let t = start + i as u64 * 10 * MILLI;
        let pos = [100.0 + i as f32 * 5.0, 200.0];
        let pressure = 0.5 + 0.3 * (i as f32 / 20.0).sin();
        if let Some(pt) = engine.sample(&unit, raw(pressure, pos, t)) {
            points.push(pt);
        }
    }

    assert!(!points.is_empty());
    assert!(v(points[5].pressure) > 0.0);
    let dx = v(points[10].pos_mm_x) - (100.0 + 10.0 * 5.0) / v(engine.dpi_mm);
    assert!(dx.abs() < 1.0);
}

#[test]
fn test_pen_up_pen_down() {
    let unit = unit();
    let start = 7_000 * MILLI;
    let mut engine = PhysicsEngine::new(HandProfile::default(), f(25.4), start);

    let hover = engine.sample(&unit, raw(0.01, [0.0, 0.0], start));
    assert!(hover.is_none());
    assert!(!engine.state.is_down_bool());

    let down = engine.sample(&unit, raw(0.5, [0.0, 0.0], start + 16 * MILLI));
    assert!(down.is_some());
    assert!(engine.state.is_down_bool());
}

#[test]
fn test_stroke_point_pod() {
    let pt = StrokePoint {
        pos_mm_x: f(1.0),
        pos_mm_y: f(2.0),
        pressure: f(0.5),
        timestamp_secs: f(1.0),
        width_mm: f(1.0),
        aspect_ratio: f(1.0),
        slant_azimuth_rad: f(0.0),
        slant_altitude_rad: f(0.0),
    };
    let bytes = pt.to_bytes();
    assert_eq!(bytes.len(), 32);
    assert_eq!(&bytes[4..8], &2.0f32.to_ne_bytes());
    assert_eq!(&bytes[8..12], &0.5f32.to_ne_bytes());
}

#[test]
fn profiles_hold_their_numbers() {
    let hand = HandProfile::default();
    assert_eq!(v(hand.tremor_freq_hz), 9.0);
    assert_eq!(v(hand.tremor_base_amplitude_mm), 0.08);
    assert_eq!(v(hand.fatigue_per_minute), 0.15);
    assert_eq!(v(hand.max_fatigue), 3.0);
    assert_eq!(v(hand.natural_slant_deg), -12.0);
    assert_eq!(v(hand.pressure_sensitivity), 2.5);
    assert_eq!(v(hand.pressure_threshold), 0.05);
    assert_eq!(v(hand.pressure_smooth_ms), 16.0);
    assert_eq!(v(hand.velocity_width_scale), 0.3);

    let latin = HandProfile::latin_right_handed();
    assert_eq!(v(latin.natural_slant_deg), -15.0);
    let myanmar = HandProfile::myanmar_right_handed();
    assert_eq!(v(myanmar.natural_slant_deg), -5.0);
    assert_eq!(v(myanmar.pressure_sensitivity), 3.2);
    assert_eq!(v(myanmar.tremor_freq_hz), 8.5);
    let left = HandProfile::latin_left_handed();
    assert_eq!(v(left.natural_slant_deg), 20.0);
    assert_eq!(v(left.tremor_base_amplitude_mm), 0.1);
}

#[test]
fn a_rested_pen_is_sixteen_words_of_rest() {
    let state = PenState::new(0, 0);
    assert_eq!(std::mem::size_of::<PenState>(), 64);
    assert_eq!(v(state.slant_altitude_rad), std::f32::consts::FRAC_PI_4);
    assert_eq!(v(state.fatigue), 1.0);
    assert!(!state.is_down_bool());
    let mut state = state;
    state.set_down(true);
    assert_eq!(state.is_down, 1);
    state.set_down(false);
    assert_eq!(state.is_down, 0);
}

/// The first sample of a stroke, written out in ordinary arithmetic.
#[test]
fn a_sample_is_computed_exactly() {
    let unit = unit();
    let mut engine = PhysicsEngine::new(HandProfile::default(), f(10.0), 0);
    let p = engine
        .sample(&unit, raw(0.6, [30.0, 40.0], 8 * MILLI))
        .expect("the pen is down");

    let dt = Duration::from_millis(8).as_secs_f32();
    let pos = [30.0f32 / 10.0, 40.0f32 / 10.0];
    let velocity = [pos[0] / dt, pos[1] / dt];
    let alpha = ((dt * 1000.0) / 16.0).min(1.0);
    let smoothed = 0.0 * (1.0 - alpha) + 0.6 * alpha;
    let pressure = ((smoothed - 0.05) / (1.0 - 0.05)).min(1.0);
    let speed = (velocity[0] * velocity[0] + velocity[1] * velocity[1]).sqrt();
    let slant = (-12.0f32).to_radians() * 0.8 + (velocity[0] / speed).atan() * 0.2;
    let altitude = std::f32::consts::PI / 3.0;
    let phase = 0.0 + 2.0 * std::f32::consts::PI * 9.0 * dt;
    let amplitude = 0.08f32 * 1.0;
    let dir = [-(velocity[1] / speed), velocity[0] / speed];
    let factor = (altitude / (std::f32::consts::PI / 2.0)).max(0.1);
    let width = (pressure * 2.5 + speed * 0.3 * 0.01) * factor;
    let aspect = 1.0 + (1.0 - factor) * 2.0;

    assert_eq!(v(p.pos_mm_x), pos[0] + dir[0] * amplitude * phase.sin());
    assert_eq!(v(p.pos_mm_y), pos[1] + dir[1] * amplitude * phase.sin());
    assert_eq!(v(p.pressure), pressure);
    assert_eq!(v(p.timestamp_secs), dt);
    assert_eq!(v(p.width_mm), width.max(0.1));
    assert_eq!(v(p.aspect_ratio), aspect.max(1.0));
    assert_eq!(v(p.slant_azimuth_rad), slant);
    assert_eq!(v(p.slant_altitude_rad), altitude);
    assert_eq!(v(engine.state.session_time_secs), dt);
    assert_eq!(v(engine.state.stroke_time_secs), 0.0);
    assert_eq!(engine.stroke_start, 8 * MILLI);
}

#[test]
fn a_stylus_keeps_its_own_slant() {
    let unit = unit();
    let mut engine = PhysicsEngine::new(HandProfile::default(), f(10.0), 0);
    let sample = RawSample {
        azimuth: f(0.7),
        altitude: f(2.0),
        ..raw(0.9, [1.0, 1.0], 20 * MILLI)
    };
    let p = engine.sample(&unit, sample).expect("the pen is down");
    assert_eq!(v(p.slant_azimuth_rad), 0.7);
    assert_eq!(v(p.slant_altitude_rad), std::f32::consts::FRAC_PI_2);
    assert_eq!(v(p.aspect_ratio), 1.0);
}

#[test]
fn a_batch_can_be_cut_anywhere() {
    let unit = unit();
    let samples: Vec<RawSample> = (0..12)
        .map(|i| {
            let pressure = if i % 5 == 0 { 0.0 } else { 0.9 };
            raw(pressure, [i as f32 * 3.0, 7.0], (i as u64 + 1) * 30 * MILLI)
        })
        .collect();
    let mut whole = PhysicsEngine::new(HandProfile::default(), f(8.0), 0);
    let all = whole.sample_batch(&unit, &samples).to_vec();
    for cut in 0..=samples.len() {
        let mut parts = PhysicsEngine::new(HandProfile::default(), f(8.0), 0);
        let mut points = parts.sample_batch(&unit, &samples[..cut]).to_vec();
        points.extend_from_slice(parts.sample_batch(&unit, &samples[cut..]));
        assert_eq!(points, all);
        assert_eq!(parts.state, whole.state);
    }
    assert!(all.len() <= samples.len());
    assert!(!all.is_empty());
}

#[test]
fn pausing_halves_fatigue_and_resuming_restarts_the_clocks() {
    let unit = unit();
    let mut engine = PhysicsEngine::new(HandProfile::default(), f(8.0), 0);
    engine.state.fatigue = f(2.0);
    engine.pause(&unit);
    assert_eq!(v(engine.state.fatigue), 1.5);
    engine.state.session_time_secs = f(9.0);
    engine.state.stroke_time_secs = f(4.0);
    engine.resume(55);
    assert_eq!(v(engine.state.session_time_secs), 0.0);
    assert_eq!(v(engine.state.stroke_time_secs), 0.0);
    assert_eq!(engine.session_start, 55);
    assert_eq!(engine.stroke_start, 55);
    engine.reset(77);
    assert_eq!(engine.state, PenState::new(77, 77));
    assert_eq!(engine.session_start, 77);
}

#[test]
fn fatigue_stops_at_its_cap() {
    let unit = unit();
    let mut engine = PhysicsEngine::new(HandProfile::default(), f(8.0), 0);
    engine.state.session_time_secs = f(100_000.0);
    engine.state.stroke_time_secs = f(100_000.0);
    engine.sample(&unit, raw(1.0, [0.0, 0.0], 200_000_000 * MILLI));
    engine.state.stroke_time_secs = f(100_000.0);
    engine.sample(&unit, raw(1.0, [0.0, 0.0], 200_000_020 * MILLI));
    assert_eq!(v(engine.state.fatigue), 3.0);
}

fn reading(pressure: f32, tilt: Option<f32>) -> PointerReading {
    PointerReading {
        x: f(12.0),
        y: f(5.0),
        pressure: f(pressure),
        orientation: f(0.25),
        tilt: tilt.map(f),
    }
}

#[test]
fn motion_events_are_brought_into_range() {
    let unit = unit();
    assert_eq!(AXIS_TILT, 25);
    let mut engine = PhysicsEngine::new(HandProfile::default(), f(1.0), 0);
    let p = motion_event_to_sample(&mut engine, &unit, &reading(7.5, Some(9.0)), 40 * MILLI)
        .expect("the pen is down");
    assert_eq!(v(p.pressure), 1.0);
    assert_eq!(v(p.slant_altitude_rad), std::f32::consts::FRAC_PI_2);
    assert_eq!(v(p.slant_azimuth_rad), 0.25);

    let mut other = PhysicsEngine::new(HandProfile::default(), f(1.0), 0);
    let finger = motion_event_to_sample(&mut other, &unit, &reading(0.5, None), 40 * MILLI)
        .expect("the finger is down");
    assert_eq!(v(finger.slant_altitude_rad), std::f32::consts::PI / 3.0);
    let lifted = motion_event_to_sample(&mut other, &unit, &reading(-3.0, None), 400 * MILLI);
    assert!(lifted.is_none());
}

#[test]
fn history_comes_before_the_event() {
    let unit = unit();
    let history = [
        TimedReading { reading: reading(0.4, None), at: 20 * MILLI },
        TimedReading { reading: reading(0.0, None), at: 40 * MILLI },
        TimedReading { reading: reading(0.8, None), at: 60 * MILLI },
    ];
    let now = reading(0.9, None);
    let mut engine = PhysicsEngine::new(HandProfile::default(), f(1.0), 0);
    let points = motion_event_with_history(&mut engine, &unit, &history, &now, 80 * MILLI);

    let mut other = PhysicsEngine::new(HandProfile::default(), f(1.0), 0);
    let mut expected = Vec::new();
    for h in &history {
        expected.extend(motion_event_to_sample(&mut other, &unit, &h.reading, h.at));
    }
    expected.extend(motion_event_to_sample(&mut other, &unit, &now, 80 * MILLI));
    assert_eq!(points, expected);
    assert_eq!(points.len(), 3);
    assert_eq!(engine.state, other.state);

    let mut fresh = PhysicsEngine::new(HandProfile::default(), f(1.0), 0);
    assert_eq!(
        motion_event_with_history(&mut fresh, &unit, &[], &now, 80 * MILLI).len(),
        1
    );
}

fn make_point(x: f32, y: f32, pressure: f32, width: f32) -> StrokePoint {
    StrokePoint {
        pos_mm_x: f(x),
        pos_mm_y: f(y),
        pressure: f(pressure),
        timestamp_secs: f(0.0),
        width_mm: f(width),
        aspect_ratio: f(1.0),
        slant_azimuth_rad: f(0.0),
        slant_altitude_rad: f(0.0),
    }
}

#[test]
fn test_mesh_from_stroke_points() {
    let points: Vec<StrokePoint> = (0..20)
        .map(|i| {
            let t = i as f32;
            make_point(t * 5.0, (t * 0.5).sin() * 10.0, 0.5 + 0.5 * (t / 20.0), 2.0)
        })
        .collect();

    let mesh = build_ink_mesh(&unit(), &points, f(1.0));
    assert!(!mesh.vertices.is_empty());
    assert!(!mesh.indices.is_empty());
    assert_eq!(mesh.vertices.len(), (points.len() - 1) * 4);
    assert_eq!(mesh.indices.len(), (points.len() - 1) * 6);
    assert_eq!(mesh.vertex_bytes().len(), mesh.vertices.len() * 16);
}

#[test]
fn test_batch_builder_reuse() {
    let unit = unit();
    let mut builder = StrokeMeshBuilder::with_capacity(100);

    for i in 0..10 {
        let t = i as f32;
        builder.push(make_point(t * 5.0, 0.0, 0.8, 1.5));
    }
    let mesh1 = builder.build(&unit, f(1.0));
    assert_eq!(mesh1.triangle_count(), 9);

    builder.clear();
    for i in 0..5 {
        let t = i as f32;
        builder.push(make_point(t * 3.0, 5.0, 0.6, 1.0));
    }
    let mesh2 = builder.build(&unit, f(1.0));
    assert_eq!(mesh2.triangle_count(), 4);
}

#[test]
fn test_empty_mesh() {
    let unit = unit();
    let mesh = build_ink_mesh(&unit, &[], f(1.0));
    assert!(mesh.is_empty());

    let mesh = build_ink_mesh(&unit, &[make_point(0.0, 0.0, 1.0, 2.0)], f(1.0));
    assert!(mesh.is_empty());
}

#[test]
fn a_straight_ribbon_lies_to_both_sides() {
    let unit = unit();
    let points = [
        make_point(0.0, 0.0, 0.25, 2.0),
        make_point(3.0, 0.0, 0.5, 4.0),
        make_point(6.0, 0.0, 0.75, 1.0),
    ];
    let mesh = build_ink_mesh(&unit, &points, f(1.0));
    let at: Vec<(f32, f32)> = mesh
        .vertices
        .iter()
        .map(|vertex| (v(vertex.pos_mm[0]), v(vertex.pos_mm[1])))
        .collect();
    assert_eq!(
        at,
        [
            (0.0, 1.0),
            (0.0, -1.0),
            (3.0, 2.0),
            (3.0, -2.0),
            (3.0, 2.0),
            (3.0, -2.0),
            (6.0, 0.5),
            (6.0, -0.5),
        ]
    );
    assert_eq!(mesh.indices, [0, 1, 2, 1, 3, 2, 4, 5, 6, 5, 7, 6]);
    assert_eq!(v(mesh.vertices[2].pressure), 0.5);

    let bytes = mesh.vertex_bytes();
    assert_eq!(&bytes[16..20], &0.0f32.to_ne_bytes());
    assert_eq!(&bytes[20..24], &(-1.0f32).to_ne_bytes());
    let indices = mesh.index_bytes();
    assert_eq!(indices.len(), 48);
    assert_eq!(&indices[44..48], &6u32.to_ne_bytes());
}

#[test]
fn points_on_top_of_each_other_widen_upwards() {
    let unit = unit();
    let points = [make_point(1.0, 1.0, 0.5, 2.0), make_point(1.0, 1.0, 0.5, 2.0)];
    let mesh = build_ink_mesh(&unit, &points, f(1.0));
    assert_eq!(v(mesh.vertices[0].pos_mm[0]), 1.0);
    assert_eq!(v(mesh.vertices[0].pos_mm[1]), 2.0);
    assert_eq!(v(mesh.vertices[1].pos_mm[1]), 0.0);
}

#[test]
fn both_ways_to_a_mesh_agree() {
    let unit = unit();
    let mut builder = StrokeMeshBuilder::with_capacity(4);
    let points: Vec<StrokePoint> = (0..7)
        .map(|i| make_point(i as f32, (i as f32).sqrt(), 0.1 * i as f32, 1.0 + i as f32))
        .collect();
    for p in &points {
        builder.push(*p);
    }
    let one = builder.build(&unit, f(2.0));
    let two = build_ink_mesh(&unit, &points, f(2.0));
    assert_eq!(one.vertex_bytes(), two.vertex_bytes());
    assert_eq!(one.indices, two.indices);
    let again = builder.build(&unit, f(2.0));
    assert_eq!(again.indices, one.indices);
}

#[test]
fn a_vertex_is_position_pressure_and_time() {
    let p = make_point(1.0, 2.0, 0.5, 3.0);
    assert_eq!(p.to_vertex(), [f(1.0), f(2.0), f(0.5), f(0.0)]);
}

#[test]
fn a_hovering_pen_keeps_its_hand() {
    let unit = unit();
    let mut engine = PhysicsEngine::new(HandProfile::default(), f(5.0), 0);
    engine.sample(&unit, raw(0.9, [10.0, 10.0], 100 * MILLI));
    let down = engine.state;
    let stroke = engine.stroke_start;
    assert!(engine.sample(&unit, raw(0.0, [50.0, 90.0], 900 * MILLI)).is_none());
    assert_eq!(v(engine.state.pressure), 0.0);
    assert_eq!(engine.state.slant_azimuth_rad, down.slant_azimuth_rad);
    assert_eq!(engine.state.slant_altitude_rad, down.slant_altitude_rad);
    assert_eq!(engine.state.fatigue, down.fatigue);
    assert_eq!(engine.state.tremor_phase, down.tremor_phase);
    assert_eq!(engine.state.stroke_time_secs, down.stroke_time_secs);
    assert_eq!(engine.stroke_start, stroke);
    assert_eq!(engine.session_start, 0);
    assert_eq!(engine.profile, HandProfile::default());
    assert_eq!(v(engine.dpi_mm), 5.0);
    assert_eq!(v(engine.state.session_time_secs), 0.9);
    engine.sample(&unit, raw(0.9, [50.0, 90.0], 1_000 * MILLI));
    assert_eq!(engine.stroke_start, 1_000 * MILLI);
}

#[test]
fn samples_out_of_order_count_as_simultaneous() {
    let unit = unit();
    let mut engine = PhysicsEngine::new(HandProfile::default(), f(5.0), 1_000 * MILLI);
    engine.sample(&unit, raw(0.9, [10.0, 10.0], 1_200 * MILLI));
    engine.sample(&unit, raw(0.9, [10.0, 10.0], 1_100 * MILLI));
    assert_eq!(v(engine.state.session_time_secs), 0.1);
    engine.sample(&unit, raw(0.9, [11.0, 10.0], 500 * MILLI));
    assert_eq!(v(engine.state.session_time_secs), 0.0);
    let step = (11.0f32 / 5.0 - 10.0f32 / 5.0) / 0.0001;
    assert_eq!(v(engine.state.velocity_mm_s[0]), step);
}

#[test]
fn points_keep_their_ranges() {
    let unit = unit();
    let mut engine = PhysicsEngine::new(HandProfile::default(), f(5.0), 0);
    for (i, pressure) in [0.06f32, 0.3, 5.0, 1.0, 0.2].into_iter().enumerate() {
        let sample = RawSample {
            altitude: f(0.02 * i as f32),
            ..raw(pressure, [i as f32, 0.0], (i as u64 + 1) * 50 * MILLI)
        };
        if let Some(p) = engine.sample(&unit, sample) {
            assert!(v(p.pressure) > 0.0 && v(p.pressure) <= 1.0);
            assert!(v(p.width_mm) >= 0.1);
            assert!(v(p.aspect_ratio) >= 1.0);
            assert!(v(p.slant_altitude_rad) >= 0.0);
            assert!(v(p.slant_altitude_rad) <= std::f32::consts::FRAC_PI_2);
        }
    }
}

#[test]
fn a_long_ribbon_names_its_vertices_and_meets_itself() {
    let unit = unit();
    let points: Vec<StrokePoint> = (0..50)
        .map(|i| make_point(i as f32, (i as f32 * 0.7).cos(), 0.5, 1.0))
        .collect();
    let mesh = build_ink_mesh(&unit, &points, f(1.0));
    assert!(mesh.indices.iter().all(|i| (*i as usize) < mesh.vertices.len()));
    for segment in 0..48 {
        assert_eq!(mesh.vertices[4 * segment + 2], mesh.vertices[4 * segment + 4]);
        assert_eq!(mesh.vertices[4 * segment + 3], mesh.vertices[4 * segment + 5]);
    }
    assert_eq!(mesh.triangle_count(), 49);
}

#[test]
fn past_readings_lie_before_now() {
    assert_eq!(instant_of(1000, 50, 20), 970);
    assert_eq!(instant_of(1000, 50, 50), 1000);
    assert_eq!(instant_of(1000, 20, 50), 1000);
    assert_eq!(instant_of(10, 50, 20), 0);
    assert_eq!(instant_of(30, 50, 20), 0);
    assert_eq!(instant_of(u64::MAX, i64::MAX, i64::MIN), 0);
    assert_eq!(instant_of(u64::MAX, i64::MAX, i64::MIN + 1), 1);
}

#[test]
fn a_state_is_sixteen_words() {
    let state = PenState {
        pos_mm: [f(1.0), f(2.0)],
        velocity_mm_s: [f(3.0), f(4.0)],
        pressure: f(5.0),
        slant_azimuth_rad: f(6.0),
        slant_altitude_rad: f(7.0),
        fatigue: f(8.0),
        session_time_secs: f(9.0),
        stroke_time_secs: f(10.0),
        is_down: 1,
        tremor_phase: f(11.0),
        prev_raw_pressure: f(12.0),
        _pad: [f(13.0), f(14.0), f(15.0)],
    };
    let mut expected: Vec<u8> = (1..=10).flat_map(|i| (i as f32).to_ne_bytes()).collect();
    expected.extend(1u32.to_ne_bytes());
    expected.extend((11..=15).flat_map(|i| (i as f32).to_ne_bytes()));
    assert_eq!(state.to_bytes(), expected);
    assert_eq!(expected.len(), 64);
}

/// Whatever the engine is told, the tremor multiplier stays between one and the cap.
#[test]
fn fatigue_never_leaves_its_range() {
    let unit = unit();
    let profiles = [
        HandProfile::default(),
        HandProfile { fatigue_per_minute: f(4000.0), max_fatigue: f(1.0), ..HandProfile::default() },
        HandProfile {
            fatigue_per_minute: f(f32::MAX),
            max_fatigue: f(f32::INFINITY),
            ..HandProfile::default()
        },
        HandProfile { fatigue_per_minute: f(f32::NAN), ..HandProfile::default() },
    ];
    for profile in profiles {
        let cap = v(profile.max_fatigue);
        let mut engine = PhysicsEngine::new(profile, f(10.0), 0);
        let mut now: u64 = 0;
        for i in 0..400u64 {
            now += 700 * MILLI;
            match i % 23 {
                7 => engine.pause(&unit),
                11 => engine.resume(now),
                19 if i > 200 => engine.reset(now),
                _ => {
                    let pressure = if i % 9 == 0 { 0.0 } else { 0.9 };
                    engine.sample(&unit, raw(pressure, [i as f32, 1.0], now));
                }
            }
            let fatigue = v(engine.state.fatigue);
            assert!(1.0 <= fatigue && fatigue <= cap);
        }
    }
}

/// The pen is down exactly where the smoothed pressure is above the threshold.
#[test]
fn the_pen_is_down_above_the_threshold() {
    let unit = unit();
    for threshold in [0.0, 0.05, 0.5, 0.999_999_9] {
        let profile = HandProfile { pressure_threshold: f(threshold), ..HandProfile::default() };
        let pressures = [0.0, 1e-40, 0.049, 0.05, 0.051, 0.5, 0.500_001, 1.0, 3.0, f32::INFINITY];
        for pressure in pressures {
            let mut engine = PhysicsEngine::new(profile, f(10.0), 0);
            for i in 1..=4 {
                engine.sample(&unit, raw(pressure, [1.0, 1.0], i * 10 * MILLI));
                let above = threshold < v(engine.state.prev_raw_pressure);
                assert_eq!(engine.state.is_down_bool(), above);
            }
        }
    }
}
