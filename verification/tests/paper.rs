use handwriting::number::{double, single, Double, Single};
use handwriting::paper::{PaperParams, PaperTexture};
use handwriting::unit::{FloatUnit, Op};
use noise::{NoiseFn, Perlin};
use rand::{Rng, SeedableRng};
use rand_pcg::Pcg32;
use std::cell::RefCell;
use std::collections::HashMap;
use std::time::Duration;

fn s(bits: u64) -> f32 {
    f32::from_bits(bits as u32)
}

fn d(bits: u64) -> f64 {
    f64::from_bits(bits)
}

fn from_s(value: f32) -> u64 {
    value.to_bits() as u64
}

fn nanos(seconds: f32) -> u64 {
    match Duration::try_from_secs_f32(seconds) {
        Ok(time) => u64::try_from(time.as_nanos()).unwrap_or(u64::MAX),
        Err(_) if seconds > 0.0 => u64::MAX,
        Err(_) => 0,
    }
}

/// The operations in IEEE 754 arithmetic, with the noise tables of the standard
/// seed at hand.
fn ieee(tables: &[(u32, Perlin)], op: Op, a: u64, b: u64) -> u64 {
    match op {
        Op::Add => from_s(s(a) + s(b)),
        Op::Sub => from_s(s(a) - s(b)),
        Op::Mul => from_s(s(a) * s(b)),
        Op::Div => from_s(s(a) / s(b)),
        Op::Sqrt => from_s(s(a).sqrt()),
        Op::Sin => from_s(s(a).sin()),
        Op::Cos => from_s(s(a).cos()),
        Op::Atan => from_s(s(a).atan()),
        Op::Radians => from_s(s(a).to_radians()),
        Op::Seconds => from_s(Duration::from_nanos(a).as_secs_f32()),
        Op::Nanos => nanos(s(a)),
        Op::AddWide => (d(a) + d(b)).to_bits(),
        Op::SubWide => (d(a) - d(b)).to_bits(),
        Op::MulWide => (d(a) * d(b)).to_bits(),
        Op::DivWide => (d(a) / d(b)).to_bits(),
        Op::SinWide => d(a).sin().to_bits(),
        Op::CosWide => d(a).cos().to_bits(),
        Op::Count => (a as f64).to_bits(),
        Op::Integer => (a as i64 as f64).to_bits(),
        Op::Widen => (s(a) as f64).to_bits(),
        Op::Narrow => from_s(d(a) as f32),
        Op::Noise { seed } => {
            let at = [d(a), d(b), 0.0];
            match tables.iter().find(|(known, _)| *known == seed) {
                Some((_, table)) => table.get(at).to_bits(),
                None => Perlin::new(seed).get(at).to_bits(),
            }
        }
        Op::FiberAngle => Pcg32::seed_from_u64(a)
            .gen_range(0.0..std::f64::consts::PI)
            .to_bits(),
    }
}

/// The arithmetic of the machine. Neighbouring pixels share the heights between them,
/// so those of the standard seed are remembered.
fn unit() -> FloatUnit<impl Fn(Op, u64, u64) -> u64> {
    let seed = PaperParams::default().seed;
    let surface = seed.wrapping_add(200);
    let heights: RefCell<HashMap<(u64, u64), u64>> = RefCell::new(HashMap::new());
    let tables: Vec<(u32, Perlin)> = [0, 100, 200]
        .iter()
        .map(|by| (seed.wrapping_add(*by), Perlin::new(seed.wrapping_add(*by))))
        .collect();
    FloatUnit::new(move |op: Op, a: u64, b: u64| match op {
        Op::Noise { seed } if seed == surface => *heights
            .borrow_mut()
            .entry((a, b))
            .or_insert_with(|| ieee(&tables, op, a, b)),
        _ => ieee(&tables, op, a, b),
    })
}

#[test]
fn test_generate_default() {
    let tex = PaperTexture::generate(&unit(), &PaperParams::default());
    assert_eq!(tex.diffuse_rgba.len(), 1024 * 1024 * 4);
    assert_eq!(tex.normal_rgba.len(), 1024 * 1024 * 4);
    assert!(tex.validate().is_ok());
}

#[test]
fn test_presets() {
    let rough = PaperTexture::rough(&unit());
    let smooth = PaperTexture::smooth(&unit());
    assert_eq!(rough.width, 1024);
    assert_eq!(smooth.width, 1024);
}

#[test]
fn test_normal_encoding() {
    let params = PaperParams {
        width: 4,
        height: 4,
        ..Default::default()
    };
    let tex = PaperTexture::generate(&unit(), &params);
    for i in 0..tex.normal_rgba.len() {
        assert!(tex.normal_rgba[i] <= 255);
    }
    let center = (2 * 4 + 2) * 4;
    assert!(tex.normal_rgba[center] >= 120 && tex.normal_rgba[center] <= 136);
    assert!(tex.normal_rgba[center + 1] >= 120 && tex.normal_rgba[center + 1] <= 136);
    assert!(tex.normal_rgba[center + 2] >= 240);
}

/// The bytes of some rows of both textures, written out in ordinary arithmetic.
fn expected(
    width: u32,
    height: u32,
    rows: std::ops::Range<u32>,
    seed: u32,
    scales: [f64; 5],
    base: [f32; 3],
) -> (Vec<u8>, Vec<u8>) {
    let [fiber_scale, grain_scale, fiber_strength, grain_strength, anisotropy] = scales;
    let fibers = Perlin::new(seed);
    let grains = Perlin::new(seed.wrapping_add(100));
    let bumps = Perlin::new(seed.wrapping_add(200));
    let angle: f64 = Pcg32::seed_from_u64(seed as u64).gen_range(0.0..std::f64::consts::PI);
    let dir = [angle.cos(), angle.sin()];
    let eps = 1.0 / width as f64;
    let mut diffuse = Vec::new();
    let mut normal = Vec::new();
    for y in rows {
        for x in 0..width {
            let px = x as f64 / width as f64;
            let py = y as f64 / height as f64;
            let u = px * dir[0] + py * dir[1];
            let v = -px * dir[1] + py * dir[0];
            let fiber = fibers.get([
                u * fiber_scale,
                v * fiber_scale * (1.0 + anisotropy * 3.0),
                0.0,
            ]);
            let grain = grains.get([px * grain_scale, py * grain_scale, 0.0]);
            let sum = (fiber * 0.5 + 0.5) * fiber_strength + (grain * 0.5 + 0.5) * grain_strength;
            let light = 1.0 - sum.clamp(0.0, 1.0) * 0.15;
            for channel in base {
                diffuse.push((channel * light as f32 * 255.0) as u8);
            }
            diffuse.push(255);
            let at = |x: f64, y: f64| bumps.get([x * fiber_scale, y * fiber_scale, 0.0]);
            let dx = (at(px + eps, py) - at(px - eps, py)) * 0.5;
            let dy = (at(px, py + eps) - at(px, py - eps)) * 0.5;
            let nx = -(dx * 2.0) as f32;
            let ny = -(dy * 2.0) as f32;
            let nz = 1.0f32;
            let len = (nx * nx + ny * ny + nz * nz).sqrt();
            for component in [nx / len, ny / len, nz / len] {
                normal.push(((component * 0.5 + 0.5) * 255.0) as u8);
            }
            normal.push(255);
        }
    }
    (diffuse, normal)
}

#[test]
fn a_paper_is_computed_exactly() {
    let unit = unit();
    let standard = PaperParams::default();
    let cases = [
        (standard.seed, [4.0, 20.0, 0.6, 0.3, 0.7]),
        (7, [4.0, 20.0, 0.6, 0.3, 0.7]),
        (u32::MAX - 50, [2.0, 40.0, 0.8, 0.5, 0.3]),
        (1, [8.0, 10.0, 5.0, -9.0, 0.9]),
    ];
    for (seed, scales) in cases {
        let [fiber_scale, grain_scale, fiber_strength, grain_strength, fiber_anisotropy] =
            scales.map(|scale: f64| double(scale.to_bits()));
        let params = PaperParams {
            width: 13,
            height: 7,
            seed,
            fiber_scale,
            grain_scale,
            fiber_strength,
            grain_strength,
            fiber_anisotropy,
            ..standard
        };
        let paper = PaperTexture::generate(&unit, &params);
        let (diffuse, normal) = expected(13, 7, 0..7, seed, scales, [0.98, 0.96, 0.94]);
        assert_eq!(paper.diffuse_rgba, diffuse);
        assert_eq!(paper.normal_rgba, normal);
        assert_eq!((paper.width, paper.height), (13, 7));
    }
}

#[test]
fn papers_hold_their_numbers() {
    let wide = |value: Double| f64::from_bits(value.bits);
    let params = PaperParams::default();
    assert_eq!((params.width, params.height, params.seed), (1024, 1024, 42));
    assert_eq!(wide(params.fiber_scale), 4.0);
    assert_eq!(wide(params.grain_scale), 20.0);
    assert_eq!(wide(params.fiber_strength), 0.6);
    assert_eq!(wide(params.grain_strength), 0.3);
    assert_eq!(wide(params.fiber_anisotropy), 0.7);
    assert_eq!(
        params.base_color.map(|c: Single| f32::from_bits(c.bits)),
        [0.98, 0.96, 0.94]
    );
}

/// Where every operation answers zero a paper is quick to make.
fn still() -> FloatUnit<impl Fn(Op, u64, u64) -> u64> {
    FloatUnit::new(|_op: Op, _a: u64, _b: u64| 0)
}

#[test]
fn presets_have_their_sizes() {
    let fine = PaperTexture::high_res(&still());
    assert_eq!((fine.width, fine.height), (2048, 2048));
    assert_eq!(fine.diffuse_rgba.len(), 2048 * 2048 * 4);
    assert!(fine.validate().is_ok());
    let standard = PaperTexture::default_1024(&still());
    assert_eq!((standard.width, standard.height), (1024, 1024));
    assert!(standard.normal_rgba.chunks(4).all(|pixel| pixel[3] == 255));
}

fn looks_like(paper: &PaperTexture, scales: [f64; 5]) {
    for row in [0, 511, 1023] {
        let (diffuse, normal) =
            expected(1024, 1024, row..row + 1, 42, scales, [0.98, 0.96, 0.94]);
        let at = row as usize * 4096;
        assert!(paper.diffuse_rgba[at..at + 4096] == diffuse[..]);
        assert!(paper.normal_rgba[at..at + 4096] == normal[..]);
    }
}

#[test]
fn rough_paper_looks_rough() {
    looks_like(&PaperTexture::rough(&unit()), [2.0, 40.0, 0.8, 0.5, 0.3]);
}

#[test]
fn smooth_paper_looks_smooth() {
    looks_like(&PaperTexture::smooth(&unit()), [8.0, 10.0, 0.3, 0.1, 0.9]);
}

#[test]
fn a_paper_of_the_wrong_size_is_refused() {
    let mut paper = PaperTexture {
        width: 2,
        height: 3,
        diffuse_rgba: vec![0; 24],
        normal_rgba: vec![0; 24],
    };
    assert_eq!(paper.validate(), Ok(()));
    paper.normal_rgba.pop();
    assert_eq!(paper.validate(), Err("normal_rgba size mismatch"));
    paper.diffuse_rgba.push(0);
    assert_eq!(paper.validate(), Err("diffuse_rgba size mismatch"));
    for (width, height) in [(65_536, 65_536), (32_768, 32_768), (u32::MAX, u32::MAX)] {
        let paper = PaperTexture {
            width,
            height,
            diffuse_rgba: Vec::new(),
            normal_rgba: Vec::new(),
        };
        assert_eq!(paper.validate(), Err("diffuse_rgba size mismatch"));
    }
}

#[test]
fn an_empty_paper_has_no_bytes() {
    let params = PaperParams { width: 0, height: 5, ..Default::default() };
    let paper = PaperTexture::generate(&unit(), &params);
    assert!(paper.diffuse_rgba.is_empty() && paper.normal_rgba.is_empty());
    assert!(paper.validate().is_ok());
}

#[test]
fn singles_are_ordered_as_numbers() {
    let values = [
        0.0f32, -0.0, 1.0, -1.0, 0.5, 254.9, 255.0, 255.5, 256.0, 1e-40, -1e-40, 1e30, -1e30, 3.75,
        127.999, f32::INFINITY, f32::NEG_INFINITY, f32::NAN, f32::MIN_POSITIVE, f32::MAX,
    ];
    for a in values {
        let x = single(a.to_bits());
        assert_eq!(x.is_nan(), a.is_nan());
        assert_eq!(x.to_byte(), a as u8);
        assert_eq!(x.neg().bits, (-a).to_bits());
        for b in values {
            let y = single(b.to_bits());
            assert_eq!(x.less(y), a < b);
            if a != b || a.is_nan() {
                assert_eq!(f32::from_bits(x.max(y).bits).to_string(), a.max(b).to_string());
                assert_eq!(f32::from_bits(x.min(y).bits).to_string(), a.min(b).to_string());
            }
        }
        let clamped = f32::from_bits(x.clamp(single(0), single(1.0f32.to_bits())).bits);
        assert_eq!(clamped.to_string(), a.clamp(0.0, 1.0).to_string());
    }
}

#[test]
fn doubles_are_ordered_as_numbers() {
    let values = [
        0.0f64, -0.0, 1.0, -1.0, 0.5, 1e-310, -1e-310, 1e300, f64::INFINITY, f64::NEG_INFINITY,
        f64::NAN,
    ];
    for a in values {
        let x = double(a.to_bits());
        assert_eq!(x.is_nan(), a.is_nan());
        assert_eq!(x.neg().bits, (-a).to_bits());
        for b in values {
            let y = double(b.to_bits());
            assert_eq!(x.less(y), a < b);
            if a != b || a.is_nan() {
                assert_eq!(f64::from_bits(x.max(y).bits).to_string(), a.max(b).to_string());
                assert_eq!(f64::from_bits(x.min(y).bits).to_string(), a.min(b).to_string());
            }
        }
        let clamped = f64::from_bits(x.clamp(double(0), double(1.0f64.to_bits())).bits);
        assert_eq!(clamped.to_string(), a.clamp(0.0, 1.0).to_string());
    }
}

#[test]
fn normals_depend_on_size_seed_and_fibres() {
    let wide = |value: f64| double(value.to_bits());
    let p = PaperParams { width: 9, height: 6, seed: 5, ..Default::default() };
    let q = PaperParams {
        grain_scale: wide(3.0),
        fiber_strength: wide(0.1),
        grain_strength: wide(0.9),
        fiber_anisotropy: wide(0.2),
        base_color: [single(0.1f32.to_bits()); 3],
        ..p
    };
    let a = PaperTexture::generate(&unit(), &p);
    let b = PaperTexture::generate(&unit(), &q);
    assert_eq!(a.normal_rgba, b.normal_rgba);
    assert_ne!(a.diffuse_rgba, b.diffuse_rgba);
    for other in [
        PaperParams { seed: 6, ..p },
        PaperParams { fiber_scale: wide(3.5), ..p },
    ] {
        let c = PaperTexture::generate(&unit(), &other);
        assert_ne!(a.normal_rgba, c.normal_rgba);
    }
}

#[test]
fn fibres_darken_a_little() {
    let wide = |value: f64| double(value.to_bits());
    for strength in [0.0, 0.5, 1.0, 50.0, -50.0] {
        for base in [[0.98f32, 0.96, 0.94], [1.0, 0.5, 0.0], [7.0, -1.0, 0.01]] {
            let params = PaperParams {
                width: 16,
                height: 16,
                fiber_strength: wide(strength),
                grain_strength: wide(strength),
                base_color: base.map(|c| single(c.to_bits())),
                ..Default::default()
            };
            let paper = PaperTexture::generate(&unit(), &params);
            for pixel in paper.diffuse_rgba.chunks(4) {
                for (byte, c) in pixel.iter().zip(base) {
                    assert!((c * 0.85 * 255.0) as u8 <= *byte);
                    assert!(*byte <= (c * 1.0 * 255.0) as u8);
                }
            }
        }
    }
}
