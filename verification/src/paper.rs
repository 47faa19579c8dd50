//! Procedural paper: a colour texture with fibres and grain, and a normal map of
//! the same surface.

use crate::constants::{
    BYTE_MAX, HALF, ONE, WIDE_HALF, WIDE_ONE, WIDE_THREE, WIDE_TWO, WIDE_ZERO, ZERO,
};
use crate::number::{
    double, magnitude_of_zero, single, unsigned_doubles_are_ordered,
    unsigned_singles_are_ordered, Double, Single, SINGLE_SIGN,
};
use crate::rounding::{
    beside, beside_wide, bounded_is_finite, bounded_is_finite_wide, bytes_keep_the_order,
    constants_stand_for, finite, finite_wide, fractions_are_smaller, nearest, one, one_wide,
    products_keep_the_order, rounds_to_nearest, units_per_single,
};
use crate::unit::{FloatUnit, Op};
use vstd::arithmetic::div_mod::lemma_fundamental_div_mod_converse;
use vstd::arithmetic::power2::{lemma2_to64, lemma2_to64_rest, lemma_pow2_adds, lemma_pow2_pos, pow2};
use vstd::prelude::*;

verus! {

/// What a paper looks like.
#[derive(Clone, Copy, Debug, PartialEq)]
pub struct PaperParams {
    pub width: u32,
    pub height: u32,
    pub seed: u32,
    /// Frequency of the fibres.
    pub fiber_scale: Double,
    /// Frequency of the grain.
    pub grain_scale: Double,
    /// Strength of the fibres, from 0 to 1.
    pub fiber_strength: Double,
    /// Strength of the grain, from 0 to 1.
    pub grain_strength: Double,
    /// How much the fibres lie in one direction, from 0 to 1.
    pub fiber_anisotropy: Double,
    /// Red, green and blue of the bare paper, from 0 to 1.
    pub base_color: [Single; 3],
}

impl PaperParams {
    /// A square of warm white paper.
    pub open spec fn standard() -> PaperParams {
        PaperParams {
            width: 1024,
            height: 1024,
            seed: 42,
            fiber_scale: double(0x4010_0000_0000_0000),  // 4
            grain_scale: double(0x4034_0000_0000_0000),  // 20
            fiber_strength: double(0x3FE3_3333_3333_3333),  // 0.6
            grain_strength: double(0x3FD3_3333_3333_3333),  // 0.3
            fiber_anisotropy: double(0x3FE6_6666_6666_6666),  // 0.7
            base_color: [single(0x3F7A_E148), single(0x3F75_C28F), single(0x3F70_A3D7)],  // 0.98, 0.96, 0.94
        }
    }

    /// The standard paper at twice the resolution.
    pub open spec fn fine() -> PaperParams {
        PaperParams { width: 2048, height: 2048, ..PaperParams::standard() }
    }

    /// Rough handmade paper.
    pub open spec fn handmade() -> PaperParams {
        PaperParams {
            fiber_scale: double(0x4000_0000_0000_0000),  // 2
            grain_scale: double(0x4044_0000_0000_0000),  // 40
            fiber_strength: double(0x3FE9_9999_9999_999A),  // 0.8
            grain_strength: double(0x3FE0_0000_0000_0000),  // 0.5
            fiber_anisotropy: double(0x3FD3_3333_3333_3333),  // 0.3
            ..PaperParams::standard()
        }
    }

    /// Smooth printer paper.
    pub open spec fn printer() -> PaperParams {
        PaperParams {
            fiber_scale: double(0x4020_0000_0000_0000),  // 8
            grain_scale: double(0x4024_0000_0000_0000),  // 10
            fiber_strength: double(0x3FD3_3333_3333_3333),  // 0.3
            grain_strength: double(0x3FB9_9999_9999_999A),  // 0.1
            fiber_anisotropy: double(0x3FEC_CCCC_CCCC_CCCD),  // 0.9
            ..PaperParams::standard()
        }
    }
}

impl Default for PaperParams {
    fn default() -> (r: PaperParams)
        ensures
            r == PaperParams::standard(),
    {
        PaperParams {
            width: 1024,
            height: 1024,
            seed: 42,
            fiber_scale: double(0x4010_0000_0000_0000),  // 4
            grain_scale: double(0x4034_0000_0000_0000),  // 20
            fiber_strength: double(0x3FE3_3333_3333_3333),  // 0.6
            grain_strength: double(0x3FD3_3333_3333_3333),  // 0.3
            fiber_anisotropy: double(0x3FE6_6666_6666_6666),  // 0.7
            base_color: [single(0x3F7A_E148), single(0x3F75_C28F), single(0x3F70_A3D7)],  // 0.98, 0.96, 0.94
        }
    }
}

/// What all pixels of a paper share.
#[derive(Clone, Copy)]
pub struct Weave {
    /// Seed of the grain.
    pub grain_seed: u32,
    /// Seed of the surface.
    pub surface_seed: u32,
    /// Direction of the fibres, as a unit vector.
    pub along_x: Double,
    pub along_y: Double,
    /// Distance of the samples that give the slope of the surface.
    pub eps: Double,
}

/// A seed moved on, past the largest one to the smallest.
pub open spec fn next_seed(seed: u32, by: u32) -> u32 {
    ((seed + by) % 0x1_0000_0000) as u32
}

/// What all pixels of a paper share.
pub open spec fn weave<F: Fn(Op, u64, u64) -> u64>(
    unit: FloatUnit<F>,
    params: PaperParams,
) -> Weave {
    let angle = unit.fiber_angle_of(params.seed);
    Weave {
        grain_seed: next_seed(params.seed, 100),
        surface_seed: next_seed(params.seed, 200),
        along_x: unit.cosine_wide(angle),
        along_y: unit.sine_wide(angle),
        eps: unit.over_wide(double(WIDE_ONE), unit.counted(params.width)),
    }
}

/// Noise, which reaches from -1 to 1, as a share of `strength`.
pub open spec fn share<F: Fn(Op, u64, u64) -> u64>(
    unit: FloatUnit<F>,
    noise: Double,
    strength: Double,
) -> Double {
    unit.times_wide(
        unit.plus_wide(unit.times_wide(noise, double(WIDE_HALF)), double(WIDE_HALF)),
        strength,
    )
}

/// The noise of the fibres at a place, stretched along their direction.
pub open spec fn fiber_noise<F: Fn(Op, u64, u64) -> u64>(
    unit: FloatUnit<F>,
    params: PaperParams,
    w: Weave,
    px: Double,
    py: Double,
) -> Double {
    let u = unit.plus_wide(unit.times_wide(px, w.along_x), unit.times_wide(py, w.along_y));
    let v = unit.plus_wide(
        unit.times_wide(px.negated(), w.along_y),
        unit.times_wide(py, w.along_x),
    );
    let stretch = unit.plus_wide(
        double(WIDE_ONE),
        unit.times_wide(params.fiber_anisotropy, double(WIDE_THREE)),
    );
    unit.noise_at(
        params.seed,
        unit.times_wide(u, params.fiber_scale),
        unit.times_wide(unit.times_wide(v, params.fiber_scale), stretch),
    )
}

/// How much fibres and grain there are at a place.
pub open spec fn shading<F: Fn(Op, u64, u64) -> u64>(
    unit: FloatUnit<F>,
    params: PaperParams,
    w: Weave,
    px: Double,
    py: Double,
) -> Double {
    let fiber = share(unit, fiber_noise(unit, params, w, px, py), params.fiber_strength);
    let grain = share(
        unit,
        unit.noise_at(
            w.grain_seed,
            unit.times_wide(px, params.grain_scale),
            unit.times_wide(py, params.grain_scale),
        ),
        params.grain_strength,
    );
    unit.plus_wide(fiber, grain)
}

/// How much of its colour the paper keeps at a place: fibres and grain darken it a
/// little.
pub open spec fn brightness<F: Fn(Op, u64, u64) -> u64>(
    unit: FloatUnit<F>,
    params: PaperParams,
    w: Weave,
    px: Double,
    py: Double,
) -> Single {
    let intensity = shading(unit, params, w, px, py).clamped(double(WIDE_ZERO), double(WIDE_ONE));
    unit.narrowed(
        unit.minus_wide(
            double(WIDE_ONE),
            unit.times_wide(intensity, double(FIBER_SHADE)),
        ),
    )
}

/// The share of the colour that the darkest fibre takes: 0.15, in double
/// precision.
pub const FIBER_SHADE: u64 = 0x3FC3_3333_3333_3333;

/// The share of the colour that the darkest fibre leaves: 0.85, in single precision.
pub const FIBER_LEAVES: u32 = 0x3F59_999A;

/// A colour channel as a byte.
pub open spec fn channel<F: Fn(Op, u64, u64) -> u64>(
    unit: FloatUnit<F>,
    base: Single,
    brightness: Single,
) -> u8 {
    unit.times(unit.times(base, brightness), single(BYTE_MAX)).byte()
}

/// The height of the surface at a place.
pub open spec fn surface<F: Fn(Op, u64, u64) -> u64>(
    unit: FloatUnit<F>,
    params: PaperParams,
    w: Weave,
    x: Double,
    y: Double,
) -> Double {
    unit.noise_at(
        w.surface_seed,
        unit.times_wide(x, params.fiber_scale),
        unit.times_wide(y, params.fiber_scale),
    )
}

/// A component of the surface normal from the heights before and behind a place.
pub open spec fn tilt<F: Fn(Op, u64, u64) -> u64>(
    unit: FloatUnit<F>,
    before: Double,
    behind: Double,
) -> Single {
    let slope = unit.times_wide(unit.minus_wide(behind, before), double(WIDE_HALF));
    unit.narrowed(unit.times_wide(slope, double(WIDE_TWO)).negated())
}

/// A component of a unit vector as a byte: -1 at the lower end, 1 at the upper.
pub open spec fn encoded<F: Fn(Op, u64, u64) -> u64>(unit: FloatUnit<F>, component: Single) -> u8 {
    unit.times(
        unit.plus(unit.times(component, single(HALF)), single(HALF)),
        single(BYTE_MAX),
    ).byte()
}

/// The length of a normal whose component out of the paper is 1.
pub open spec fn normal_length<F: Fn(Op, u64, u64) -> u64>(
    unit: FloatUnit<F>,
    nx: Single,
    ny: Single,
) -> Single {
    unit.root(
        unit.plus(
            unit.plus(unit.times(nx, nx), unit.times(ny, ny)),
            unit.times(single(ONE), single(ONE)),
        ),
    )
}

/// One pixel of both textures.
#[derive(Clone, Copy, Debug, PartialEq)]
pub struct Texel {
    pub red: u8,
    pub green: u8,
    pub blue: u8,
    pub normal_x: u8,
    pub normal_y: u8,
    pub normal_z: u8,
}

/// The pixel at column `x` and row `y`.
pub open spec fn texel<F: Fn(Op, u64, u64) -> u64>(
    unit: FloatUnit<F>,
    params: PaperParams,
    x: u32,
    y: u32,
) -> Texel {
    let w = weave(unit, params);
    let px = unit.over_wide(unit.counted(x), unit.counted(params.width));
    let py = unit.over_wide(unit.counted(y), unit.counted(params.height));
    let bright = brightness(unit, params, w, px, py);
    let nx = tilt(
        unit,
        surface(unit, params, w, unit.minus_wide(px, w.eps), py),
        surface(unit, params, w, unit.plus_wide(px, w.eps), py),
    );
    let ny = tilt(
        unit,
        surface(unit, params, w, px, unit.minus_wide(py, w.eps)),
        surface(unit, params, w, px, unit.plus_wide(py, w.eps)),
    );
    let length = normal_length(unit, nx, ny);
    Texel {
        red: channel(unit, params.base_color[0], bright),
        green: channel(unit, params.base_color[1], bright),
        blue: channel(unit, params.base_color[2], bright),
        normal_x: encoded(unit, unit.over(nx, length)),
        normal_y: encoded(unit, unit.over(ny, length)),
        normal_z: encoded(unit, unit.over(single(ONE), length)),
    }
}

/// The pixel that a byte of a texture belongs to, row by row, four bytes a pixel.
pub open spec fn texel_of_byte<F: Fn(Op, u64, u64) -> u64>(
    unit: FloatUnit<F>,
    params: PaperParams,
    k: int,
) -> Texel {
    texel(
        unit,
        params,
        ((k / 4) % params.width as int) as u32,
        ((k / 4) / params.width as int) as u32,
    )
}

/// A byte of the colour texture: red, green, blue and full opacity.
pub open spec fn diffuse_byte<F: Fn(Op, u64, u64) -> u64>(
    unit: FloatUnit<F>,
    params: PaperParams,
    k: int,
) -> u8 {
    let t = texel_of_byte(unit, params, k);
    if k % 4 == 0 {
        t.red
    } else if k % 4 == 1 {
        t.green
    } else if k % 4 == 2 {
        t.blue
    } else {
        255
    }
}

/// A byte of the normal map: the three components and full opacity.
pub open spec fn normal_byte<F: Fn(Op, u64, u64) -> u64>(
    unit: FloatUnit<F>,
    params: PaperParams,
    k: int,
) -> u8 {
    let t = texel_of_byte(unit, params, k);
    if k % 4 == 0 {
        t.normal_x
    } else if k % 4 == 1 {
        t.normal_y
    } else if k % 4 == 2 {
        t.normal_z
    } else {
        255
    }
}

/// The first pixels of the colour texture.
pub open spec fn diffuse_bytes<F: Fn(Op, u64, u64) -> u64>(
    unit: FloatUnit<F>,
    params: PaperParams,
    pixels: nat,
) -> Seq<u8> {
    Seq::new(4 * pixels, |k: int| diffuse_byte(unit, params, k))
}

/// The first pixels of the normal map.
pub open spec fn normal_bytes<F: Fn(Op, u64, u64) -> u64>(
    unit: FloatUnit<F>,
    params: PaperParams,
    pixels: nat,
) -> Seq<u8> {
    Seq::new(4 * pixels, |k: int| normal_byte(unit, params, k))
}

fn share_of<F: Fn(Op, u64, u64) -> u64>(
    unit: &FloatUnit<F>,
    noise: Double,
    strength: Double,
) -> (r: Double)
    ensures
        r == share(*unit, noise, strength),
{
    unit.mul_wide(
        unit.add_wide(unit.mul_wide(noise, double(WIDE_HALF)), double(WIDE_HALF)),
        strength,
    )
}

fn shared_weave<F: Fn(Op, u64, u64) -> u64>(unit: &FloatUnit<F>, params: &PaperParams) -> (r: Weave)
    ensures
        r == weave(*unit, *params),
{
    let angle = unit.fiber_angle(params.seed);
    Weave {
        grain_seed: params.seed.wrapping_add(100),
        surface_seed: params.seed.wrapping_add(200),
        along_x: unit.cos_wide(angle),
        along_y: unit.sin_wide(angle),
        eps: unit.div_wide(double(WIDE_ONE), unit.count(params.width)),
    }
}

fn brightness_at<F: Fn(Op, u64, u64) -> u64>(
    unit: &FloatUnit<F>,
    params: &PaperParams,
    w: &Weave,
    px: Double,
    py: Double,
) -> (r: Single)
    ensures
        r == brightness(*unit, *params, *w, px, py),
{
    let u = unit.add_wide(unit.mul_wide(px, w.along_x), unit.mul_wide(py, w.along_y));
    let v = unit.add_wide(unit.mul_wide(px.neg(), w.along_y), unit.mul_wide(py, w.along_x));
    let stretch = unit.add_wide(
        double(WIDE_ONE),
        unit.mul_wide(params.fiber_anisotropy, double(WIDE_THREE)),
    );
    let fiber = unit.noise(
        params.seed,
        unit.mul_wide(u, params.fiber_scale),
        unit.mul_wide(unit.mul_wide(v, params.fiber_scale), stretch),
    );
    let fiber_val = share_of(unit, fiber, params.fiber_strength);
    let grain = unit.noise(
        w.grain_seed,
        unit.mul_wide(px, params.grain_scale),
        unit.mul_wide(py, params.grain_scale),
    );
    let grain_val = share_of(unit, grain, params.grain_strength);
    proof {
        unsigned_doubles_are_ordered(double(WIDE_ZERO), double(WIDE_ONE));
    }
    let intensity = unit.add_wide(fiber_val, grain_val).clamp(
        double(WIDE_ZERO),
        double(WIDE_ONE),
    );
    unit.narrow(
        unit.sub_wide(double(WIDE_ONE), unit.mul_wide(intensity, double(FIBER_SHADE))),
    )
}

fn color_channel<F: Fn(Op, u64, u64) -> u64>(
    unit: &FloatUnit<F>,
    base: Single,
    bright: Single,
) -> (r: u8)
    ensures
        r == channel(*unit, base, bright),
{
    unit.mul(unit.mul(base, bright), single(BYTE_MAX)).to_byte()
}

fn surface_height<F: Fn(Op, u64, u64) -> u64>(
    unit: &FloatUnit<F>,
    params: &PaperParams,
    w: &Weave,
    x: Double,
    y: Double,
) -> (r: Double)
    ensures
        r == surface(*unit, *params, *w, x, y),
{
    unit.noise(
        w.surface_seed,
        unit.mul_wide(x, params.fiber_scale),
        unit.mul_wide(y, params.fiber_scale),
    )
}

fn surface_tilt<F: Fn(Op, u64, u64) -> u64>(
    unit: &FloatUnit<F>,
    before: Double,
    behind: Double,
) -> (r: Single)
    ensures
        r == tilt(*unit, before, behind),
{
    let slope = unit.mul_wide(unit.sub_wide(behind, before), double(WIDE_HALF));
    unit.narrow(unit.mul_wide(slope, double(WIDE_TWO)).neg())
}

fn encode_component<F: Fn(Op, u64, u64) -> u64>(unit: &FloatUnit<F>, component: Single) -> (r: u8)
    ensures
        r == encoded(*unit, component),
{
    unit.mul(unit.add(unit.mul(component, single(HALF)), single(HALF)), single(BYTE_MAX)).to_byte()
}

fn texel_at<F: Fn(Op, u64, u64) -> u64>(
    unit: &FloatUnit<F>,
    params: &PaperParams,
    w: &Weave,
    x: u32,
    y: u32,
) -> (r: Texel)
    requires
        *w == weave(*unit, *params),
    ensures
        r == texel(*unit, *params, x, y),
{
    let px = unit.div_wide(unit.count(x), unit.count(params.width));
    let py = unit.div_wide(unit.count(y), unit.count(params.height));
    let bright = brightness_at(unit, params, w, px, py);
    let nx = surface_tilt(
        unit,
        surface_height(unit, params, w, unit.sub_wide(px, w.eps), py),
        surface_height(unit, params, w, unit.add_wide(px, w.eps), py),
    );
    let ny = surface_tilt(
        unit,
        surface_height(unit, params, w, px, unit.sub_wide(py, w.eps)),
        surface_height(unit, params, w, px, unit.add_wide(py, w.eps)),
    );
    let length = unit.sqrt(
        unit.add(
            unit.add(unit.mul(nx, nx), unit.mul(ny, ny)),
            unit.mul(single(ONE), single(ONE)),
        ),
    );
    Texel {
        red: color_channel(unit, params.base_color[0], bright),
        green: color_channel(unit, params.base_color[1], bright),
        blue: color_channel(unit, params.base_color[2], bright),
        normal_x: encode_component(unit, unit.div(nx, length)),
        normal_y: encode_component(unit, unit.div(ny, length)),
        normal_z: encode_component(unit, unit.div(single(ONE), length)),
    }
}

fn push_pixel<F: Fn(Op, u64, u64) -> u64>(
    unit: &FloatUnit<F>,
    params: &PaperParams,
    w: &Weave,
    x: u32,
    y: u32,
    diffuse: &mut Vec<u8>,
    normal: &mut Vec<u8>,
)
    requires
        *w == weave(*unit, *params),
        x < params.width,
        old(diffuse)@ == diffuse_bytes(*unit, *params, (y * params.width + x) as nat),
        old(normal)@ == normal_bytes(*unit, *params, (y * params.width + x) as nat),
    ensures
        final(diffuse)@ == diffuse_bytes(*unit, *params, (y * params.width + x + 1) as nat),
        final(normal)@ == normal_bytes(*unit, *params, (y * params.width + x + 1) as nat),
{
    let t = texel_at(unit, params, w, x, y);
    diffuse.push(t.red);
    diffuse.push(t.green);
    diffuse.push(t.blue);
    diffuse.push(255);
    normal.push(t.normal_x);
    normal.push(t.normal_y);
    normal.push(t.normal_z);
    normal.push(255);
    proof {
        let at = y * params.width + x;
        lemma_fundamental_div_mod_converse(at, params.width as int, y as int, x as int);
        assert(at >= 0) by (nonlinear_arith)
            requires
                at == y * params.width + x,
        ;
        assert forall|k: int| 4 * at <= k < 4 * at + 4 implies texel_of_byte(
            *unit,
            *params,
            k,
        ) == t by {
            assert(k / 4 == at);
        }
        assert(diffuse@ == diffuse_bytes(*unit, *params, (at + 1) as nat));
        assert(normal@ == normal_bytes(*unit, *params, (at + 1) as nat));
    }
}

/// The textures of a paper, four bytes a pixel, row by row.
pub struct PaperTexture {
    pub width: u32,
    pub height: u32,
    /// Red, green, blue and opacity.
    pub diffuse_rgba: Vec<u8>,
    /// The surface normal and opacity, each component from 0 to 255.
    pub normal_rgba: Vec<u8>,
}

/// Whether a texture is the one that the parameters describe.
pub open spec fn is_paper<F: Fn(Op, u64, u64) -> u64>(
    unit: FloatUnit<F>,
    params: PaperParams,
    texture: PaperTexture,
) -> bool {
    let pixels = (params.height * params.width) as nat;
    &&& texture.width == params.width
    &&& texture.height == params.height
    &&& texture.diffuse_rgba@ == diffuse_bytes(unit, params, pixels)
    &&& texture.normal_rgba@ == normal_bytes(unit, params, pixels)
}

impl PaperTexture {
    /// The texture that the parameters describe.
    pub fn generate<F: Fn(Op, u64, u64) -> u64>(
        unit: &FloatUnit<F>,
        params: &PaperParams,
    ) -> (r: PaperTexture)
        requires
            params.height * params.width * 4 <= isize::MAX,
        ensures
            is_paper(*unit, *params, r),
    {
        let mut diffuse: Vec<u8> = Vec::new();
        let mut normal: Vec<u8> = Vec::new();
        let w = shared_weave(unit, params);
        let mut y: u32 = 0;
        assert(diffuse@ == diffuse_bytes(*unit, *params, 0));
        assert(normal@ == normal_bytes(*unit, *params, 0));
        assert(0 * params.width == 0);
        while y < params.height
            invariant
                y <= params.height,
                w == weave(*unit, *params),
                diffuse@ == diffuse_bytes(*unit, *params, (y * params.width) as nat),
                normal@ == normal_bytes(*unit, *params, (y * params.width) as nat),
            decreases params.height - y,
        {
            let mut x: u32 = 0;
            while x < params.width
                invariant
                    x <= params.width,
                    w == weave(*unit, *params),
                    diffuse@ == diffuse_bytes(*unit, *params, (y * params.width + x) as nat),
                    normal@ == normal_bytes(*unit, *params, (y * params.width + x) as nat),
                decreases params.width - x,
            {
                push_pixel(unit, params, &w, x, y, &mut diffuse, &mut normal);
                x += 1;
            }
            assert(y * params.width + params.width == (y + 1) * params.width)
                by (nonlinear_arith);
            y += 1;
        }
        PaperTexture {
            width: params.width,
            height: params.height,
            diffuse_rgba: diffuse,
            normal_rgba: normal,
        }
    }

    /// Checks that both textures have the size that width and height ask for.
    pub fn validate(&self) -> (r: Result<(), &'static str>)
        ensures
            ({
                let expected = self.width * self.height * 4;
                if self.diffuse_rgba@.len() != expected {
                    r matches Err(message) && message@ == "diffuse_rgba size mismatch"@
                } else if self.normal_rgba@.len() != expected {
                    r matches Err(message) && message@ == "normal_rgba size mismatch"@
                } else {
                    r is Ok
                }
            }),
            r is Ok <==> self.diffuse_rgba@.len() == self.width * self.height * 4
                && self.normal_rgba@.len() == self.width * self.height * 4,
    {
        assert(self.width * self.height <= u32::MAX * u32::MAX) by (nonlinear_arith)
            requires
                self.width <= u32::MAX,
                self.height <= u32::MAX,
        ;
        let expected: u128 = self.width as u128 * self.height as u128 * 4;
        if self.diffuse_rgba.len() as u128 != expected {
            return Err("diffuse_rgba size mismatch");
        }
        if self.normal_rgba.len() as u128 != expected {
            return Err("normal_rgba size mismatch");
        }
        Ok(())
    }

    /// The standard paper.
    pub fn default_1024<F: Fn(Op, u64, u64) -> u64>(unit: &FloatUnit<F>) -> (r: PaperTexture)
        ensures
            is_paper(*unit, PaperParams::standard(), r),
    {
        PaperTexture::generate(unit, &PaperParams::default())
    }

    /// The standard paper at twice the resolution.
    pub fn high_res<F: Fn(Op, u64, u64) -> u64>(unit: &FloatUnit<F>) -> (r: PaperTexture)
        ensures
            is_paper(*unit, PaperParams::fine(), r),
    {
        PaperTexture::generate(
            unit,
            &PaperParams { width: 2048, height: 2048, ..PaperParams::default() },
        )
    }

    /// Rough handmade paper.
    pub fn rough<F: Fn(Op, u64, u64) -> u64>(unit: &FloatUnit<F>) -> (r: PaperTexture)
        ensures
            is_paper(*unit, PaperParams::handmade(), r),
    {
        let params = PaperParams {
            fiber_scale: double(0x4000_0000_0000_0000),  // 2
            grain_scale: double(0x4044_0000_0000_0000),  // 40
            fiber_strength: double(0x3FE9_9999_9999_999A),  // 0.8
            grain_strength: double(0x3FE0_0000_0000_0000),  // 0.5
            fiber_anisotropy: double(0x3FD3_3333_3333_3333),  // 0.3
            ..PaperParams::default()
        };
        assert(params.height * params.width * 4 == 0x40_0000) by (nonlinear_arith)
            requires
                params.height == 1024,
                params.width == 1024,
        ;
        PaperTexture::generate(unit, &params)
    }

    /// Smooth printer paper.
    pub fn smooth<F: Fn(Op, u64, u64) -> u64>(unit: &FloatUnit<F>) -> (r: PaperTexture)
        ensures
            is_paper(*unit, PaperParams::printer(), r),
    {
        let params = PaperParams {
            fiber_scale: double(0x4020_0000_0000_0000),  // 8
            grain_scale: double(0x4024_0000_0000_0000),  // 10
            fiber_strength: double(0x3FD3_3333_3333_3333),  // 0.3
            grain_strength: double(0x3FB9_9999_9999_999A),  // 0.1
            fiber_anisotropy: double(0x3FEC_CCCC_CCCC_CCCD),  // 0.9
            ..PaperParams::default()
        };
        assert(params.height * params.width * 4 == 0x40_0000) by (nonlinear_arith)
            requires
                params.height == 1024,
                params.width == 1024,
        ;
        PaperTexture::generate(unit, &params)
    }
}

/// A generated texture has four bytes for each pixel in both maps, which is what
/// `PaperTexture::validate` asks for, and every pixel of both is opaque.
pub proof fn a_paper_is_full_and_opaque<F: Fn(Op, u64, u64) -> u64>(
    unit: FloatUnit<F>,
    params: PaperParams,
    texture: PaperTexture,
)
    requires
        is_paper(unit, params, texture),
    ensures
        texture.diffuse_rgba@.len() == texture.width * texture.height * 4,
        texture.normal_rgba@.len() == texture.width * texture.height * 4,
        forall|k: int|
            0 <= k < texture.diffuse_rgba@.len() && k % 4 == 3 ==> #[trigger] texture.diffuse_rgba@[k]
                == 255,
        forall|k: int|
            0 <= k < texture.normal_rgba@.len() && k % 4 == 3 ==> #[trigger] texture.normal_rgba@[k]
                == 255,
{
    assert(params.height * params.width == params.width * params.height) by (nonlinear_arith);
}

/// The same parameters give the same paper.
pub proof fn a_paper_is_unique<F: Fn(Op, u64, u64) -> u64>(
    unit: FloatUnit<F>,
    params: PaperParams,
    a: PaperTexture,
    b: PaperTexture,
)
    requires
        is_paper(unit, params, a),
        is_paper(unit, params, b),
    ensures
        a.width == b.width,
        a.height == b.height,
        a.diffuse_rgba@ == b.diffuse_rgba@,
        a.normal_rgba@ == b.normal_rgba@,
{
}

/// The normal map depends on the size of a paper, its seed and the frequency of its
/// fibres, and on nothing else: papers that agree on these have the same normals,
/// whatever their colour, their grain and the strength and direction of their fibres.
pub proof fn normals_depend_on_size_seed_and_fibres<F: Fn(Op, u64, u64) -> u64>(
    unit: FloatUnit<F>,
    p: PaperParams,
    q: PaperParams,
    a: PaperTexture,
    b: PaperTexture,
)
    requires
        p.width == q.width,
        p.height == q.height,
        p.seed == q.seed,
        p.fiber_scale == q.fiber_scale,
        is_paper(unit, p, a),
        is_paper(unit, q, b),
    ensures
        a.normal_rgba@ == b.normal_rgba@,
{
    assert forall|k: int| normal_byte(unit, p, k) == normal_byte(unit, q, k) by {
        assert(weave(unit, p) == weave(unit, q));
    }
}

/// The brightness of any shading that is a number: from 0.85 up to 1.
proof fn shading_leaves_its_share<F: Fn(Op, u64, u64) -> u64>(unit: FloatUnit<F>, shade: Double)
    requires
        rounds_to_nearest(unit),
        !shade.not_a_number(),
    ensures
        ({
            let intensity = shade.clamped(double(WIDE_ZERO), double(WIDE_ONE));
            let left = unit.narrowed(
                unit.minus_wide(
                    double(WIDE_ONE),
                    unit.times_wide(intensity, double(FIBER_SHADE)),
                ),
            );
            &&& !left.not_a_number()
            &&& single(FIBER_LEAVES).value() <= left.value() <= single(ONE).value()
        }),
{
    wide_constants_stand_for();
    constants_stand_for();
    let intensity = shade.clamped(double(WIDE_ZERO), double(WIDE_ONE));
    let (zero, full) = (double(WIDE_ZERO), double(WIDE_ONE));
    let darkest = double(FIBER_SHADE);
    let least = double(0x3FEB_3333_3333_3333);
    let u = one_wide();
    assert(0 <= intensity.value() <= u);
    bounded_is_finite_wide(intensity, full);
    let taken = unit.times_wide(intensity, darkest);
    assert(beside_wide(taken, intensity.value() * darkest.value(), u));
    assert(zero.value() * u <= intensity.value() * darkest.value() <= darkest.value() * u)
        by (nonlinear_arith)
        requires
            zero.value() == 0,
            0 <= intensity.value() <= u,
            darkest.value() >= 0,
    ;
    assert(0 <= taken.value() <= darkest.value());
    bounded_is_finite_wide(taken, darkest);
    let rest = unit.minus_wide(full, taken);
    assert(beside_wide(rest, u - taken.value(), 1));
    assert(least.value() * 1 <= u - taken.value());
    assert(full.value() * 1 >= u - taken.value());
    assert(least.value() <= rest.value() <= u);
    bounded_is_finite_wide(rest, full);
    let left = unit.narrowed(rest);
    let d = units_per_single();
    assert(nearest(left, rest.value(), d));
    let low = single((FIBER_LEAVES - 1) as u32);
    let high = single(FIBER_LEAVES);
    if left.value() > single(ONE).value() {
        assert(left.value() * d > single(ONE).value() * d) by (nonlinear_arith)
            requires
                left.value() > single(ONE).value(),
                d > 0,
        ;
    }
    if left.value() < high.value() {
        assert(left.value() <= low.value()) by {
            if left.bits < SINGLE_SIGN {
                if left.bits > FIBER_LEAVES {
                    unsigned_singles_are_ordered(high, left);
                }
                unsigned_singles_are_ordered(left, low);
            }
        }
        assert(left.value() * d <= low.value() * d) by (nonlinear_arith)
            requires
                left.value() <= low.value(),
                d > 0,
        ;
        assert(low.value() * d < high.value() * d) by (nonlinear_arith)
            requires
                low.value() < high.value(),
                d > 0,
        ;
    }
}

/// Wherever the shading is a number, the paper keeps from 0.85 up to all of its colour.
pub proof fn brightness_keeps_its_range<F: Fn(Op, u64, u64) -> u64>(
    unit: FloatUnit<F>,
    params: PaperParams,
    w: Weave,
    px: Double,
    py: Double,
)
    requires
        rounds_to_nearest(unit),
        !shading(unit, params, w, px, py).not_a_number(),
    ensures
        ({
            let left = brightness(unit, params, w, px, py);
            &&& !left.not_a_number()
            &&& single(FIBER_LEAVES).value() <= left.value() <= single(ONE).value()
        }),
{
    shading_leaves_its_share(unit, shading(unit, params, w, px, py));
}

/// What the constants of the shading stand for.
proof fn wide_constants_stand_for()
    ensures
        double(WIDE_ZERO).value() == 0,
        double(WIDE_ONE).value() == one_wide(),
        finite_wide(double(WIDE_ONE)),
        finite_wide(double(FIBER_SHADE)),
        double(FIBER_SHADE).value() >= 0,
        double(0x3FEB_3333_3333_3333).value() <= one_wide() - double(FIBER_SHADE).value(),
        units_per_single() > 0,
        single(ONE).value() * units_per_single() == one_wide(),
        single((FIBER_LEAVES - 1) as u32).value() < single(FIBER_LEAVES).value(),
        single((FIBER_LEAVES - 1) as u32).value() * units_per_single() + single(
            FIBER_LEAVES,
        ).value() * units_per_single() < 2 * double(0x3FEB_3333_3333_3333).value(),
        single((FIBER_LEAVES - 1) as u32).value() >= 0,
{
    constants_stand_for();
    lemma2_to64();
    lemma2_to64_rest();
    lemma_pow2_pos(925);
    lemma_pow2_pos(1019);
    magnitude_of_zero(0, 52);
    let v = pow2(1019) as int;
    // One, the darkest shade and what it leaves, in one unit.
    lemma_pow2_adds(52, 1022);
    lemma_pow2_adds(55, 1019);
    lemma_pow2_adds(2, 1019);
    assert(double(WIDE_ONE).value() == 0x80_0000_0000_0000 * v);
    assert(double(FIBER_SHADE).value() == 0x13_3333_3333_3333 * v);
    assert(double(0x3FEB_3333_3333_3333).value() == 0x1B_3333_3333_3333 * (4 * v));
    lemma_pow2_adds(149, 925);
    // The two singles around what the darkest shade leaves, in the same unit.
    lemma_pow2_adds(125, 925);
    lemma_pow2_adds(31, 1019);
    let p = pow2(125) as int;
    let d = units_per_single();
    assert(single(FIBER_LEAVES).value() == 0xD9_999A * p);
    assert(single((FIBER_LEAVES - 1) as u32).value() == 0xD9_9999 * p);
    lemma_pow2_pos(125);
    assert((0xD9_999A * p) * d == 0xD9_999A * (p * d)) by (nonlinear_arith);
    assert((0xD9_9999 * p) * d == 0xD9_9999 * (p * d)) by (nonlinear_arith);
    assert(p * d == 0x8000_0000 * v);
}

/// Fibres and grain only darken a paper, and by at most 15 percent: wherever their
/// shading is a number, each colour byte lies between that of the bare colour at a
/// brightness of 0.85 and that of the bare colour, on an arithmetic that rounds to the
/// nearest number.
pub proof fn fibres_darken_a_little<F: Fn(Op, u64, u64) -> u64>(
    unit: FloatUnit<F>,
    params: PaperParams,
    texture: PaperTexture,
    k: int,
)
    requires
        rounds_to_nearest(unit),
        is_paper(unit, params, texture),
        0 <= k < texture.diffuse_rgba@.len(),
        k % 4 < 3,
        finite(params.base_color[k % 4]),
        !shading_of_byte(unit, params, k).not_a_number(),
    ensures
        ({
            let base = params.base_color[k % 4];
            channel(unit, base, single(FIBER_LEAVES)) <= texture.diffuse_rgba@[k] <= channel(
                unit,
                base,
                single(ONE),
            )
        }),
{
    let x = ((k / 4) % params.width as int) as u32;
    let y = ((k / 4) / params.width as int) as u32;
    brightness_keeps_its_range(
        unit,
        params,
        weave(unit, params),
        unit.over_wide(unit.counted(x), unit.counted(params.width)),
        unit.over_wide(unit.counted(y), unit.counted(params.height)),
    );
    let base = params.base_color[k % 4];
    let left = brightness_of_byte(unit, params, k);
    assert(texture.diffuse_rgba@[k] == channel(unit, base, left));
    channels_keep_the_order(unit, base, single(FIBER_LEAVES), left);
    channels_keep_the_order(unit, base, left, single(ONE));
}

/// A brighter colour channel is no smaller a byte.
proof fn channels_keep_the_order<F: Fn(Op, u64, u64) -> u64>(
    unit: FloatUnit<F>,
    base: Single,
    dark: Single,
    bright: Single,
)
    requires
        rounds_to_nearest(unit),
        finite(base),
        !dark.not_a_number(),
        !bright.not_a_number(),
        single(FIBER_LEAVES).value() <= dark.value() <= bright.value() <= single(ONE).value(),
    ensures
        channel(unit, base, dark) <= channel(unit, base, bright),
{
    wide_constants_stand_for();
    constants_stand_for();
    unsigned_singles_are_ordered(single(ONE), single(BYTE_MAX));
    bounded_is_finite(dark, single(ONE));
    bounded_is_finite(bright, single(ONE));
    fractions_are_smaller(unit, base, dark);
    fractions_are_smaller(unit, base, bright);
    let (a, b) = (unit.times(base, dark), unit.times(base, bright));
    let white = single(BYTE_MAX);
    let (x, y) = (unit.times(a, white), unit.times(b, white));
    assert(nearest(x, a.value() * white.value(), one()));
    assert(nearest(y, b.value() * white.value(), one()));
    if base.value() > 0 {
        products_keep_the_order(unit, dark, bright, base);
        products_keep_the_order(unit, a, b, white);
        bytes_keep_the_order(x, y);
    } else {
        let zero = single(ZERO);
        assert(zero.value() * one() == 0) by (nonlinear_arith)
            requires
                zero.value() == 0,
        ;
        assert(a.value() * white.value() <= 0) by (nonlinear_arith)
            requires
                a.value() <= 0,
                white.value() > 0,
        ;
        assert(beside(x, a.value() * white.value(), one()));
        assert(x.value() <= zero.value());
        assert(x.byte() == 0);
    }
}

/// The shading of the pixel that a byte belongs to.
pub open spec fn shading_of_byte<F: Fn(Op, u64, u64) -> u64>(
    unit: FloatUnit<F>,
    params: PaperParams,
    k: int,
) -> Double {
    let x = ((k / 4) % params.width as int) as u32;
    let y = ((k / 4) / params.width as int) as u32;
    shading(
        unit,
        params,
        weave(unit, params),
        unit.over_wide(unit.counted(x), unit.counted(params.width)),
        unit.over_wide(unit.counted(y), unit.counted(params.height)),
    )
}

/// The brightness of the pixel that a byte belongs to.
spec fn brightness_of_byte<F: Fn(Op, u64, u64) -> u64>(
    unit: FloatUnit<F>,
    params: PaperParams,
    k: int,
) -> Single {
    let x = ((k / 4) % params.width as int) as u32;
    let y = ((k / 4) / params.width as int) as u32;
    brightness(
        unit,
        params,
        weave(unit, params),
        unit.over_wide(unit.counted(x), unit.counted(params.width)),
        unit.over_wide(unit.counted(y), unit.counted(params.height)),
    )
}

} // verus!
