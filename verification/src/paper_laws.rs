//! What the paper means in exact arithmetic.

use crate::constants::{BYTE_MAX, HALF, ONE, WIDE_HALF, WIDE_ONE, WIDE_THREE, WIDE_TWO, WIDE_ZERO};
use crate::exact::{
    bytes_are_whole_parts, cancel, computes_closely, computes_closely_wide, constants_are_numbers,
    dust, extent, extent_of_product, greater, lesser, near, near_wide, number, number_wide, parts,
    pattern_stands_for, quotient_times_divisor, reorder, rounded, rounded_wide, roundings,
    scale_bound, ulp, ulp_wide, wide_choices_are_those_of_numbers, wide_constants_are_numbers,
    wide_negation_is_that_of_numbers, wide_pattern_stands_for, wide_products_stay_near,
};
use crate::number::{double, single, Double, Single};
use crate::paper::{
    brightness, channel, encoded, fiber_noise, is_paper, next_seed, normal_length, shading, share,
    surface, texel, tilt, weave, PaperParams, PaperTexture, Texel, Weave, FIBER_SHADE,
};
use crate::pen_laws::{grain, root_is_close, unit_quotient};
use crate::rounding::{finite, finite_wide};
use crate::unit::{FloatUnit, Op};
use vstd::arithmetic::div_mod::lemma_fundamental_div_mod_converse;
use vstd::arithmetic::power2::{lemma2_to64, lemma2_to64_rest};
use vstd::prelude::*;

verus! {

/// An error that no texture shows: 2^-40.
#[verifier::inline]
pub open spec fn hair() -> real {
    (1 as real) / (0x100_0000_0000 as real)
}

/// Whether a double is finite and within a bound of zero.
pub open spec fn is_within(a: Double, bound: real) -> bool {
    finite_wide(a) && extent(number_wide(a)) <= bound
}

/// The product of two doubles within bounds that are known up to an error.
proof fn products_within<F: Fn(Op, u64, u64) -> u64>(
    unit: FloatUnit<F>,
    a: Double,
    b: Double,
    x: real,
    y: real,
    p: real,
    q: real,
    e: real,
    f: real,
    t: real,
)
    requires
        computes_closely_wide(unit),
        near_wide(a, x, e),
        near_wide(b, y, f),
        extent(x) <= p,
        extent(y) <= q,
        e >= 0 as real,
        f >= 0 as real,
        p * q <= 0x1_0000_0000_0000 as real,
        p * f + q * e + e * f <= 1 as real,
        t >= p * f + q * e + e * f + (p * q + 1 as real) * ulp_wide() + dust(),
    ensures
        near_wide(unit.times_wide(a, b), x * y, t),
        extent(x * y) <= p * q,
{
    extent_of_product(x, y);
    scale_bound(extent(x), p, extent(y));
    scale_bound(extent(y), q, p);
    reorder(p, extent(y), p);
    reorder(p, q, p);
    scale_bound(extent(x), p, f);
    scale_bound(extent(y), q, e);
    wide_products_stay_near(unit, a, b, x, y, e, f);
}

/// A seed moved on is so much larger, or so much less a full round.
pub proof fn seeds_move_on(seed: u32, by: u32)
    ensures
        next_seed(seed, by) == seed + by || next_seed(seed, by) == seed + by - 0x1_0000_0000,
{
}

/// What the pixels of a paper share: seeds a hundred and two hundred on for the grain and
/// the surface, the direction of the fibres by its cosine and sine, and samples of the
/// surface one pixel of its width apart.
pub proof fn a_weave_in_numbers<F: Fn(Op, u64, u64) -> u64>(unit: FloatUnit<F>, params: PaperParams)
    requires
        computes_closely_wide(unit),
        params.width > 0,
    ensures
        ({
            let w = weave(unit, params);
            let angle = unit.fiber_angle_of(params.seed);
            &&& w.grain_seed == params.seed + 100 || w.grain_seed == params.seed + 100
                - 0x1_0000_0000
            &&& w.surface_seed == params.seed + 200 || w.surface_seed == params.seed + 200
                - 0x1_0000_0000
            &&& w.along_x == unit.cosine_wide(angle)
            &&& w.along_y == unit.sine_wide(angle)
            &&& near_wide(w.eps, (1 as real) / (params.width as real), hair())
        }),
{
    wide_constants_are_numbers();
    let width = unit.counted(params.width);
    assert(near_wide(width, params.width as real, 0 as real));
    fractions_are_bounded(1 as real, params.width as real);
    assert(rounded_wide(
        unit.over_wide(double(WIDE_ONE), width),
        number_wide(double(WIDE_ONE)) / number_wide(width),
    ));
}

/// A part of a whole is from 0 to 1.
proof fn fractions_are_bounded(x: real, y: real)
    requires
        0 as real <= x <= y,
        y > 0 as real,
    ensures
        0 as real <= x / y <= 1 as real,
{
    quotient_times_divisor(x, y);
    let q = x / y;
    cancel(q, 1 as real, y);
    cancel(0 as real, q, y);
}

/// Noise from -1 to 1 gives a share from none to all of a strength: half the noise and a
/// half, of the strength.
pub proof fn noise_gives_a_share<F: Fn(Op, u64, u64) -> u64>(
    unit: FloatUnit<F>,
    noise: Double,
    strength: Double,
)
    requires
        computes_closely_wide(unit),
        is_within(noise, 4 as real),
        is_within(strength, 4 as real),
    ensures
        near_wide(
            share(unit, noise, strength),
            (number_wide(noise) / (2 as real) + (1 as real) / (2 as real)) * number_wide(strength),
            hair(),
        ),
        extent(
            (number_wide(noise) / (2 as real) + (1 as real) / (2 as real)) * number_wide(strength),
        ) <= 12 as real,
{
    wide_constants_are_numbers();
    let (n, s) = (number_wide(noise), number_wide(strength));
    let half = unit.times_wide(noise, double(WIDE_HALF));
    assert(number_wide(noise) * number_wide(double(WIDE_HALF)) == n * ((1 as real) / (2 as real)));
    assert(rounded_wide(half, n * ((1 as real) / (2 as real))));
    let sum = unit.plus_wide(half, double(WIDE_HALF));
    assert(rounded_wide(sum, number_wide(half) + (1 as real) / (2 as real)));
    let x = n / (2 as real) + (1 as real) / (2 as real);
    let e = (1 as real) / (0x1_0000_0000_0000 as real);
    assert(near_wide(sum, x, e));
    products_within(
        unit,
        sum,
        strength,
        x,
        s,
        3 as real,
        4 as real,
        (1 as real) / (0x1_0000_0000_0000 as real),
        0 as real,
        hair(),
    );
}

/// Whether the noise of a unit stays within four of zero wherever it is asked for.
pub open spec fn has_bounded_noise<F: Fn(Op, u64, u64) -> u64>(unit: FloatUnit<F>) -> bool {
    forall|seed: u32, x: Double, y: Double|
        finite_wide(x) && finite_wide(y) ==> is_within(
            #[trigger] unit.noise_at(seed, x, y),
            4 as real,
        )
}

/// The shading of a place is the share of the fibres and the share of the grain. The grain
/// is the noise of its own seed at the place, times its frequency.
pub proof fn shading_adds_fibres_and_grain<F: Fn(Op, u64, u64) -> u64>(
    unit: FloatUnit<F>,
    params: PaperParams,
    w: Weave,
    px: Double,
    py: Double,
)
    requires
        computes_closely_wide(unit),
        has_bounded_noise(unit),
        is_within(px, 2 as real),
        is_within(py, 2 as real),
        is_within(params.grain_scale, 0x10_0000 as real),
        is_within(params.fiber_strength, 4 as real),
        is_within(params.grain_strength, 4 as real),
        is_within(fiber_noise(unit, params, w, px, py), 4 as real),
    ensures
        ({
            let fibres = number_wide(fiber_noise(unit, params, w, px, py));
            let scale = number_wide(params.grain_scale);
            exists|x: Double, y: Double|
                {
                    let grains = number_wide(#[trigger] unit.noise_at(w.grain_seed, x, y));
                    &&& near_wide(x, number_wide(px) * scale, (1 as real) / (0x100_0000 as real))
                    &&& near_wide(y, number_wide(py) * scale, (1 as real) / (0x100_0000 as real))
                    &&& near_wide(
                        shading(unit, params, w, px, py),
                        (fibres / (2 as real) + (1 as real) / (2 as real)) * number_wide(
                            params.fiber_strength,
                        ) + (grains / (2 as real) + (1 as real) / (2 as real)) * number_wide(
                            params.grain_strength,
                        ),
                        4 as real * hair(),
                    )
                }
        }),
{
    let fiber = fiber_noise(unit, params, w, px, py);
    noise_gives_a_share(unit, fiber, params.fiber_strength);
    let (gx, gy) = (
        unit.times_wide(px, params.grain_scale),
        unit.times_wide(py, params.grain_scale),
    );
    products_within(
        unit,
        px,
        params.grain_scale,
        number_wide(px),
        number_wide(params.grain_scale),
        2 as real,
        0x10_0000 as real,
        0 as real,
        0 as real,
        (1 as real) / (0x100_0000 as real),
    );
    products_within(
        unit,
        py,
        params.grain_scale,
        number_wide(py),
        number_wide(params.grain_scale),
        2 as real,
        0x10_0000 as real,
        0 as real,
        0 as real,
        (1 as real) / (0x100_0000 as real),
    );
    let speckles = unit.noise_at(w.grain_seed, gx, gy);
    noise_gives_a_share(unit, speckles, params.grain_strength);
    let (a, b) = (
        share(unit, fiber, params.fiber_strength),
        share(unit, speckles, params.grain_strength),
    );
    assert(rounded_wide(unit.plus_wide(a, b), number_wide(a) + number_wide(b)));
}

/// Paper keeps all of its colour but 15 percent of its shading, which counts from 0 to 1.
pub proof fn shading_darkens<F: Fn(Op, u64, u64) -> u64>(
    unit: FloatUnit<F>,
    params: PaperParams,
    w: Weave,
    px: Double,
    py: Double,
)
    requires
        computes_closely_wide(unit),
        finite_wide(shading(unit, params, w, px, py)),
    ensures
        ({
            let shade = greater(
                0 as real,
                lesser(number_wide(shading(unit, params, w, px, py)), 1 as real),
            );
            near(
                brightness(unit, params, w, px, py),
                1 as real - shade * ((15 as real) / (100 as real)),
                parts(4),
            )
        }),
{
    lemma2_to64();
    lemma2_to64_rest();
    wide_constants_are_numbers();
    wide_pattern_stands_for(
        double(FIBER_SHADE),
        0x13_3333_3333_3333,
        0x80_0000_0000_0000,
        (0x13_3333_3333_3333 as real) / (0x80_0000_0000_0000 as real),
    );
    let raw = shading(unit, params, w, px, py);
    wide_choices_are_those_of_numbers(raw, double(WIDE_ZERO), double(WIDE_ONE));
    let intensity = raw.clamped(double(WIDE_ZERO), double(WIDE_ONE));
    let shade = number_wide(intensity);
    let taken = unit.times_wide(intensity, double(FIBER_SHADE));
    products_within(
        unit,
        intensity,
        double(FIBER_SHADE),
        shade,
        (15 as real) / (100 as real),
        1 as real,
        1 as real,
        0 as real,
        ulp_wide(),
        hair(),
    );
    let rest = unit.minus_wide(double(WIDE_ONE), taken);
    assert(rounded_wide(rest, 1 as real - number_wide(taken)));
    assert(rounded(unit.narrowed(rest), number_wide(rest)));
}

/// A colour byte is 255 times the colour and the brightness, cut to a whole number.
pub proof fn colours_are_bytes<F: Fn(Op, u64, u64) -> u64>(
    unit: FloatUnit<F>,
    base: Single,
    bright: Single,
)
    requires
        computes_closely(unit),
        finite(base) && 0 as real <= number(base) <= 1 as real,
        finite(bright) && 0 as real <= number(bright) <= 1 as real,
    ensures
        ({
            let exact = number(base) * number(bright) * (255 as real);
            let byte = channel(unit, base, bright) as real;
            byte - parts(1024) <= exact <= byte + 1 as real + parts(1024)
        }),
{
    constants_are_numbers();
    let (x, y) = (number(base), number(bright));
    extent_of_product(x, y);
    scale_bound(x, 1 as real, y);
    reorder(x, y, x);
    let dimmed = unit.times(base, bright);
    assert(rounded(dimmed, x * y));
    let full = unit.times(dimmed, single(BYTE_MAX));
    assert(number(dimmed) * number(single(BYTE_MAX)) == number(dimmed) * (255 as real));
    assert(rounded(full, number(dimmed) * (255 as real)));
    bytes_are_whole_parts(full);
}

/// A component of a normal leans away from where the surface rises: it is the height
/// before the place less the height behind it.
pub proof fn normals_lean_down_the_slope<F: Fn(Op, u64, u64) -> u64>(
    unit: FloatUnit<F>,
    before: Double,
    behind: Double,
)
    requires
        computes_closely_wide(unit),
        is_within(before, 4 as real),
        is_within(behind, 4 as real),
    ensures
        near(
            tilt(unit, before, behind),
            number_wide(before) - number_wide(behind),
            parts(16),
        ),
{
    wide_constants_are_numbers();
    let rise = unit.minus_wide(behind, before);
    assert(rounded_wide(rise, number_wide(behind) - number_wide(before)));
    let half = unit.times_wide(rise, double(WIDE_HALF));
    assert(number_wide(rise) * number_wide(double(WIDE_HALF)) == number_wide(rise) * ((1 as real)
        / (2 as real)));
    assert(rounded_wide(half, number_wide(rise) * ((1 as real) / (2 as real))));
    let slope = unit.times_wide(half, double(WIDE_TWO));
    assert(number_wide(half) * number_wide(double(WIDE_TWO)) == number_wide(half) * (2 as real));
    assert(rounded_wide(slope, number_wide(half) * (2 as real)));
    wide_negation_is_that_of_numbers(slope);
    assert(rounded(unit.narrowed(slope.negated()), number_wide(slope.negated())));
}

/// A component of a unit vector is encoded from 0 for -1 up to 255 for 1: 255 times half
/// of it and a half, cut to a whole number.
pub proof fn components_are_bytes<F: Fn(Op, u64, u64) -> u64>(
    unit: FloatUnit<F>,
    component: Single,
)
    requires
        computes_closely(unit),
        finite(component) && extent(number(component)) <= 1 as real,
    ensures
        ({
            let exact = (number(component) / (2 as real) + (1 as real) / (2 as real)) * (
            255 as real);
            let byte = encoded(unit, component) as real;
            byte - parts(2048) <= exact <= byte + 1 as real + parts(2048)
        }),
{
    constants_are_numbers();
    let c = number(component);
    let half = unit.times(component, single(HALF));
    assert(c * number(single(HALF)) == c * ((1 as real) / (2 as real)));
    assert(rounded(half, c * ((1 as real) / (2 as real))));
    let sum = unit.plus(half, single(HALF));
    assert(rounded(sum, number(half) + (1 as real) / (2 as real)));
    let full = unit.times(sum, single(BYTE_MAX));
    assert(number(sum) * number(single(BYTE_MAX)) == number(sum) * (255 as real));
    assert(rounded(full, number(sum) * (255 as real)));
    bytes_are_whole_parts(full);
}

/// A normal has unit length: the two tilts and one, each over the number whose square is
/// the sum of their squares.
pub proof fn normals_have_unit_length<F: Fn(Op, u64, u64) -> u64>(
    unit: FloatUnit<F>,
    nx: Single,
    ny: Single,
    exact: real,
)
    requires
        computes_closely(unit),
        finite(nx) && extent(number(nx)) <= 1024 as real,
        finite(ny) && extent(number(ny)) <= 1024 as real,
        exact >= 1 as real,
        exact * exact == number(nx) * number(nx) + number(ny) * number(ny) + 1 as real,
    ensures
        ({
            let size = normal_length(unit, nx, ny);
            &&& near(unit.over(nx, size), number(nx) / exact, parts(32))
            &&& near(unit.over(ny, size), number(ny) / exact, parts(32))
            &&& near(unit.over(single(ONE), size), (1 as real) / exact, parts(32))
        }),
{
    constants_are_numbers();
    let (x, y) = (number(nx), number(ny));
    square_is_bounded(x);
    square_is_bounded(y);
    let (a, b) = (unit.times(nx, nx), unit.times(ny, ny));
    assert(rounded(a, x * x));
    assert(rounded(b, y * y));
    let c = unit.times(single(ONE), single(ONE));
    assert(number(single(ONE)) * number(single(ONE)) == 1 as real);
    assert(rounded(c, 1 as real));
    let sum = unit.plus(a, b);
    assert(rounded(sum, number(a) + number(b)));
    let square = unit.plus(sum, c);
    assert(rounded(square, number(sum) + number(c)));
    let z = exact * exact;
    assert(near(square, z, roundings(4, z) + 4 as real * dust()));
    root_is_close(unit, square, exact);
    let size = normal_length(unit, nx, ny);
    assert(exact * parts(9) >= roundings(8, exact) + grain());
    component_is_bounded(x, exact, y * y + 1 as real);
    component_is_bounded(y, exact, x * x + 1 as real);
    unit_quotient(unit, nx, size, exact);
    unit_quotient(unit, ny, size, exact);
    unit_quotient(unit, single(ONE), size, exact);
}

/// The square of a component of a normal.
proof fn square_is_bounded(x: real)
    requires
        extent(x) <= 1024 as real,
    ensures
        0 as real <= x * x <= 0x10_0000 as real,
{
    assert(0 as real <= x * x <= 0x10_0000 as real) by (nonlinear_arith)
        requires
            extent(x) <= 1024 as real,
    ;
}

/// A component is no longer than its vector.
proof fn component_is_bounded(x: real, size: real, rest: real)
    requires
        size >= 0 as real,
        rest >= 0 as real,
        size * size == x * x + rest,
    ensures
        extent(x) <= size,
{
    if extent(x) > size {
        assert(x * x > size * size) by (nonlinear_arith)
            requires
                extent(x) > size,
                size >= 0 as real,
        ;
    }
}

/// The fibres at a place are the noise of the seed of the paper at the place turned into
/// the direction of the fibres: along them times their frequency, across them also times
/// one and three times the anisotropy.
pub proof fn fibres_run_in_their_direction<F: Fn(Op, u64, u64) -> u64>(
    unit: FloatUnit<F>,
    params: PaperParams,
    w: Weave,
    px: Double,
    py: Double,
)
    requires
        computes_closely_wide(unit),
        is_within(px, 2 as real),
        is_within(py, 2 as real),
        is_within(w.along_x, 2 as real),
        is_within(w.along_y, 2 as real),
        is_within(params.fiber_scale, 0x10_0000 as real),
        is_within(params.fiber_anisotropy, 4 as real),
    ensures
        ({
            let (x, y) = (number_wide(px), number_wide(py));
            let (c, s) = (number_wide(w.along_x), number_wide(w.along_y));
            let scale = number_wide(params.fiber_scale);
            let stretch = 1 as real + number_wide(params.fiber_anisotropy) * (3 as real);
            exists|u: Double, v: Double|
                {
                    &&& fiber_noise(unit, params, w, px, py) == #[trigger] unit.noise_at(
                        params.seed,
                        u,
                        v,
                    )
                    &&& near_wide(u, (x * c + y * s) * scale, (1 as real) / (0x1_0000 as real))
                    &&& near_wide(
                        v,
                        (-x * s + y * c) * scale * stretch,
                        (1 as real) / (0x1_0000 as real),
                    )
                }
        }),
{
    wide_constants_are_numbers();
    let zero = 0 as real;
    let (x, y) = (number_wide(px), number_wide(py));
    let (c, s) = (number_wide(w.along_x), number_wide(w.along_y));
    let scale = number_wide(params.fiber_scale);
    wide_negation_is_that_of_numbers(px);
    rotated(unit, px, py, w.along_x, w.along_y);
    rotated(unit, px.negated(), py, w.along_y, w.along_x);
    let along = unit.plus_wide(unit.times_wide(px, w.along_x), unit.times_wide(py, w.along_y));
    let across = unit.plus_wide(
        unit.times_wide(px.negated(), w.along_y),
        unit.times_wide(py, w.along_x),
    );
    products_within(
        unit,
        along,
        params.fiber_scale,
        x * c + y * s,
        scale,
        8 as real,
        0x10_0000 as real,
        hair() / (0x10 as real),
        zero,
        (1 as real) / (0x10_0000 as real),
    );
    products_within(
        unit,
        across,
        params.fiber_scale,
        -x * s + y * c,
        scale,
        8 as real,
        0x10_0000 as real,
        hair() / (0x10 as real),
        zero,
        (1 as real) / (0x40_0000 as real),
    );
    let three = unit.times_wide(params.fiber_anisotropy, double(WIDE_THREE));
    let a = number_wide(params.fiber_anisotropy);
    assert(a * number_wide(double(WIDE_THREE)) == a * (3 as real));
    assert(rounded_wide(three, a * (3 as real)));
    let stretch = unit.plus_wide(double(WIDE_ONE), three);
    assert(rounded_wide(stretch, 1 as real + number_wide(three)));
    products_within(
        unit,
        unit.times_wide(across, params.fiber_scale),
        stretch,
        (-x * s + y * c) * scale,
        1 as real + a * (3 as real),
        0x80_0000 as real,
        16 as real,
        (1 as real) / (0x40_0000 as real),
        hair() / (0x10 as real),
        (1 as real) / (0x1_0000 as real),
    );
    let (u, v) = (
        unit.times_wide(along, params.fiber_scale),
        unit.times_wide(unit.times_wide(across, params.fiber_scale), stretch),
    );
    assert(fiber_noise(unit, params, w, px, py) == unit.noise_at(params.seed, u, v));
}

/// A coordinate turned.
proof fn rotated<F: Fn(Op, u64, u64) -> u64>(
    unit: FloatUnit<F>,
    a: Double,
    b: Double,
    c: Double,
    d: Double,
)
    requires
        computes_closely_wide(unit),
        is_within(a, 2 as real),
        is_within(b, 2 as real),
        is_within(c, 2 as real),
        is_within(d, 2 as real),
    ensures
        near_wide(
            unit.plus_wide(unit.times_wide(a, c), unit.times_wide(b, d)),
            number_wide(a) * number_wide(c) + number_wide(b) * number_wide(d),
            hair() / (0x10 as real),
        ),
        extent(number_wide(a) * number_wide(c) + number_wide(b) * number_wide(d)) <= 8 as real,
{
    products_within(
        unit,
        a,
        c,
        number_wide(a),
        number_wide(c),
        2 as real,
        2 as real,
        0 as real,
        0 as real,
        (1 as real) / (0x1_0000_0000_0000 as real),
    );
    products_within(
        unit,
        b,
        d,
        number_wide(b),
        number_wide(d),
        2 as real,
        2 as real,
        0 as real,
        0 as real,
        (1 as real) / (0x1_0000_0000_0000 as real),
    );
    let (p, q) = (unit.times_wide(a, c), unit.times_wide(b, d));
    assert(rounded_wide(unit.plus_wide(p, q), number_wide(p) + number_wide(q)));
}

/// Whether a pixel is what the paper looks like at a place. Its colours are those of the
/// bare paper at the brightness of the place. Its normal leans by the heights of the
/// surface to the left and the right and above and below, and the third component points
/// out of the paper.
pub open spec fn looks_like<F: Fn(Op, u64, u64) -> u64>(
    unit: FloatUnit<F>,
    params: PaperParams,
    t: Texel,
    px: Double,
    py: Double,
    sides: [Double; 4],
) -> bool {
    let w = weave(unit, params);
    let bright = brightness(unit, params, w, px, py);
    let nx = tilt(
        unit,
        surface(unit, params, w, sides[0], py),
        surface(unit, params, w, sides[1], py),
    );
    let ny = tilt(
        unit,
        surface(unit, params, w, px, sides[2]),
        surface(unit, params, w, px, sides[3]),
    );
    let size = normal_length(unit, nx, ny);
    &&& t.red == channel(unit, params.base_color[0], bright)
    &&& t.green == channel(unit, params.base_color[1], bright)
    &&& t.blue == channel(unit, params.base_color[2], bright)
    &&& t.normal_x == encoded(unit, unit.over(nx, size))
    &&& t.normal_y == encoded(unit, unit.over(ny, size))
    &&& t.normal_z == encoded(unit, unit.over(single(ONE), size))
}

/// The pixel at a column and a row is what the paper looks like at that part of the width
/// and that part of the height, with the surface sampled one pixel of the width away.
pub proof fn a_pixel_stands_at_its_place<F: Fn(Op, u64, u64) -> u64>(
    unit: FloatUnit<F>,
    params: PaperParams,
    x: u32,
    y: u32,
)
    requires
        computes_closely_wide(unit),
        x < params.width,
        y < params.height,
    ensures
        ({
            let across = (x as real) / (params.width as real);
            let down = (y as real) / (params.height as real);
            let step = (1 as real) / (params.width as real);
            exists|px: Double, py: Double, sides: [Double; 4]|
                {
                    &&& #[trigger] looks_like(
                        unit,
                        params,
                        texel(unit, params, x, y),
                        px,
                        py,
                        sides,
                    )
                    &&& near_wide(px, across, hair())
                    &&& near_wide(py, down, hair())
                    &&& near_wide(sides[0], across - step, 4 as real * hair())
                    &&& near_wide(sides[1], across + step, 4 as real * hair())
                    &&& near_wide(sides[2], down - step, 4 as real * hair())
                    &&& near_wide(sides[3], down + step, 4 as real * hair())
                }
        }),
{
    let w = weave(unit, params);
    a_weave_in_numbers(unit, params);
    fractions_are_bounded(1 as real, params.width as real);
    part_of(unit, x, params.width);
    part_of(unit, y, params.height);
    let px = unit.over_wide(unit.counted(x), unit.counted(params.width));
    let py = unit.over_wide(unit.counted(y), unit.counted(params.height));
    let (left, right) = (unit.minus_wide(px, w.eps), unit.plus_wide(px, w.eps));
    let (up, down) = (unit.minus_wide(py, w.eps), unit.plus_wide(py, w.eps));
    assert(rounded_wide(left, number_wide(px) - number_wide(w.eps)));
    assert(rounded_wide(right, number_wide(px) + number_wide(w.eps)));
    assert(rounded_wide(up, number_wide(py) - number_wide(w.eps)));
    assert(rounded_wide(down, number_wide(py) + number_wide(w.eps)));
    let sides = [left, right, up, down];
    assert(looks_like(unit, params, texel(unit, params, x, y), px, py, sides));
}

/// A whole number as a part of another.
proof fn part_of<F: Fn(Op, u64, u64) -> u64>(unit: FloatUnit<F>, x: u32, whole: u32)
    requires
        computes_closely_wide(unit),
        x < whole,
    ensures
        near_wide(
            unit.over_wide(unit.counted(x), unit.counted(whole)),
            (x as real) / (whole as real),
            hair(),
        ),
        0 as real <= (x as real) / (whole as real) <= 1 as real,
{
    assert(near_wide(unit.counted(x), x as real, 0 as real));
    assert(near_wide(unit.counted(whole), whole as real, 0 as real));
    fractions_are_bounded(x as real, whole as real);
    assert(rounded_wide(
        unit.over_wide(unit.counted(x), unit.counted(whole)),
        (x as real) / (whole as real),
    ));
}

/// The surface at a place is the noise of its own seed there, times the frequency of the
/// fibres.
pub proof fn the_surface_has_its_own_noise<F: Fn(Op, u64, u64) -> u64>(
    unit: FloatUnit<F>,
    params: PaperParams,
    w: Weave,
    x: Double,
    y: Double,
)
    requires
        computes_closely_wide(unit),
        is_within(x, 4 as real),
        is_within(y, 4 as real),
        is_within(params.fiber_scale, 0x10_0000 as real),
    ensures
        exists|u: Double, v: Double|
            {
                &&& surface(unit, params, w, x, y) == #[trigger] unit.noise_at(w.surface_seed, u, v)
                &&& near_wide(
                    u,
                    number_wide(x) * number_wide(params.fiber_scale),
                    (1 as real) / (0x100_0000 as real),
                )
                &&& near_wide(
                    v,
                    number_wide(y) * number_wide(params.fiber_scale),
                    (1 as real) / (0x100_0000 as real),
                )
            },
{
    let scale = params.fiber_scale;
    products_within(
        unit,
        x,
        scale,
        number_wide(x),
        number_wide(scale),
        4 as real,
        0x10_0000 as real,
        0 as real,
        0 as real,
        (1 as real) / (0x100_0000 as real),
    );
    products_within(
        unit,
        y,
        scale,
        number_wide(y),
        number_wide(scale),
        4 as real,
        0x10_0000 as real,
        0 as real,
        0 as real,
        (1 as real) / (0x100_0000 as real),
    );
    let (u, v) = (unit.times_wide(x, scale), unit.times_wide(y, scale));
    assert(surface(unit, params, w, x, y) == unit.noise_at(w.surface_seed, u, v));
}

/// The pixels lie row by row, from left to right, four bytes each: red, green, blue and
/// full opacity in the colours, the three components and full opacity in the normals.
pub proof fn pixels_lie_row_by_row<F: Fn(Op, u64, u64) -> u64>(
    unit: FloatUnit<F>,
    params: PaperParams,
    texture: PaperTexture,
    x: u32,
    y: u32,
)
    requires
        is_paper(unit, params, texture),
        x < params.width,
        y < params.height,
    ensures
        ({
            let at = 4 * (y * params.width + x);
            let t = texel(unit, params, x, y);
            &&& 0 <= at
            &&& at + 4 <= texture.diffuse_rgba@.len()
            &&& at + 4 <= texture.normal_rgba@.len()
            &&& texture.diffuse_rgba@.subrange(at, at + 4) == seq![t.red, t.green, t.blue, 255u8]
            &&& texture.normal_rgba@.subrange(at, at + 4) == seq![
                t.normal_x,
                t.normal_y,
                t.normal_z,
                255u8,
            ]
        }),
{
    let pixel = y * params.width + x;
    assert(0 <= pixel && pixel + 1 <= params.height * params.width) by (nonlinear_arith)
        requires
            pixel == y * params.width + x,
            x < params.width,
            y < params.height,
    ;
    lemma_fundamental_div_mod_converse(pixel, params.width as int, y as int, x as int);
    let at = 4 * pixel;
    assert(at / 4 == pixel && (at + 1) / 4 == pixel && (at + 2) / 4 == pixel && (at + 3) / 4
        == pixel);
}

/// The papers in numbers. The standard one has 1024 pixels along each side, the fine one
/// twice as many; rough and smooth paper differ from the standard one in their fibres and
/// their grain, and all have the same warm white.
pub proof fn papers_in_numbers()
    ensures
        ({
            let p = PaperParams::standard();
            &&& p.width == 1024 && p.height == 1024 && p.seed == 42
            &&& number_wide(p.fiber_scale) == 4 as real
            &&& number_wide(p.grain_scale) == 20 as real
            &&& near_wide(p.fiber_strength, (6 as real) / (10 as real), ulp_wide())
            &&& near_wide(p.grain_strength, (3 as real) / (10 as real), ulp_wide())
            &&& near_wide(p.fiber_anisotropy, (7 as real) / (10 as real), ulp_wide())
            &&& near(p.base_color[0], (98 as real) / (100 as real), ulp())
            &&& near(p.base_color[1], (96 as real) / (100 as real), ulp())
            &&& near(p.base_color[2], (94 as real) / (100 as real), ulp())
        }),
        ({
            let (p, q) = (PaperParams::fine(), PaperParams::standard());
            &&& p.width == 2 * q.width && p.height == 2 * q.height
            &&& p == (PaperParams { width: p.width, height: p.height, ..q })
        }),
        ({
            let (p, q) = (PaperParams::handmade(), PaperParams::standard());
            &&& p.width == q.width && p.height == q.height && p.seed == q.seed
            &&& p.base_color == q.base_color
            &&& number_wide(p.fiber_scale) == 2 as real
            &&& number_wide(p.grain_scale) == 40 as real
            &&& near_wide(p.fiber_strength, (8 as real) / (10 as real), ulp_wide())
            &&& number_wide(p.grain_strength) == (1 as real) / (2 as real)
            &&& near_wide(p.fiber_anisotropy, (3 as real) / (10 as real), ulp_wide())
        }),
        ({
            let (p, q) = (PaperParams::printer(), PaperParams::standard());
            &&& p.width == q.width && p.height == q.height && p.seed == q.seed
            &&& p.base_color == q.base_color
            &&& number_wide(p.fiber_scale) == 8 as real
            &&& number_wide(p.grain_scale) == 10 as real
            &&& near_wide(p.fiber_strength, (3 as real) / (10 as real), ulp_wide())
            &&& near_wide(p.grain_strength, (1 as real) / (10 as real), ulp_wide())
            &&& near_wide(p.fiber_anisotropy, (9 as real) / (10 as real), ulp_wide())
        }),
{
    lemma2_to64();
    lemma2_to64_rest();
    wide_pattern_stands_for(
        double(0x4010_0000_0000_0000),
        0x10_0000_0000_0000,
        0x4_0000_0000_0000,
        (0x10_0000_0000_0000 as real) / (0x4_0000_0000_0000 as real),
    );
    wide_pattern_stands_for(
        double(0x4034_0000_0000_0000),
        0x14_0000_0000_0000,
        0x1_0000_0000_0000,
        (0x14_0000_0000_0000 as real) / (0x1_0000_0000_0000 as real),
    );
    wide_pattern_stands_for(
        double(0x3FE3_3333_3333_3333),
        0x13_3333_3333_3333,
        0x20_0000_0000_0000,
        (0x13_3333_3333_3333 as real) / (0x20_0000_0000_0000 as real),
    );
    wide_pattern_stands_for(
        double(0x3FD3_3333_3333_3333),
        0x13_3333_3333_3333,
        0x40_0000_0000_0000,
        (0x13_3333_3333_3333 as real) / (0x40_0000_0000_0000 as real),
    );
    wide_pattern_stands_for(
        double(0x3FE6_6666_6666_6666),
        0x16_6666_6666_6666,
        0x20_0000_0000_0000,
        (0x16_6666_6666_6666 as real) / (0x20_0000_0000_0000 as real),
    );
    wide_pattern_stands_for(
        double(0x4000_0000_0000_0000),
        0x10_0000_0000_0000,
        0x8_0000_0000_0000,
        (0x10_0000_0000_0000 as real) / (0x8_0000_0000_0000 as real),
    );
    wide_pattern_stands_for(
        double(0x4044_0000_0000_0000),
        0x14_0000_0000_0000,
        0x8000_0000_0000,
        (0x14_0000_0000_0000 as real) / (0x8000_0000_0000 as real),
    );
    wide_pattern_stands_for(
        double(0x3FE9_9999_9999_999A),
        0x19_9999_9999_999A,
        0x20_0000_0000_0000,
        (0x19_9999_9999_999A as real) / (0x20_0000_0000_0000 as real),
    );
    wide_pattern_stands_for(
        double(0x3FE0_0000_0000_0000),
        0x10_0000_0000_0000,
        0x20_0000_0000_0000,
        (0x10_0000_0000_0000 as real) / (0x20_0000_0000_0000 as real),
    );
    wide_pattern_stands_for(
        double(0x4020_0000_0000_0000),
        0x10_0000_0000_0000,
        0x2_0000_0000_0000,
        (0x10_0000_0000_0000 as real) / (0x2_0000_0000_0000 as real),
    );
    wide_pattern_stands_for(
        double(0x4024_0000_0000_0000),
        0x14_0000_0000_0000,
        0x2_0000_0000_0000,
        (0x14_0000_0000_0000 as real) / (0x2_0000_0000_0000 as real),
    );
    wide_pattern_stands_for(
        double(0x3FB9_9999_9999_999A),
        0x19_9999_9999_999A,
        0x100_0000_0000_0000,
        (0x19_9999_9999_999A as real) / (0x100_0000_0000_0000 as real),
    );
    wide_pattern_stands_for(
        double(0x3FEC_CCCC_CCCC_CCCD),
        0x1C_CCCC_CCCC_CCCD,
        0x20_0000_0000_0000,
        (0x1C_CCCC_CCCC_CCCD as real) / (0x20_0000_0000_0000 as real),
    );
    pattern_stands_for(
        single(0x3F7A_E148),
        0xFA_E148,
        0x100_0000,
        (0xFA_E148 as real) / (0x100_0000 as real),
    );
    pattern_stands_for(
        single(0x3F75_C28F),
        0xF5_C28F,
        0x100_0000,
        (0xF5_C28F as real) / (0x100_0000 as real),
    );
    pattern_stands_for(
        single(0x3F70_A3D7),
        0xF0_A3D7,
        0x100_0000,
        (0xF0_A3D7 as real) / (0x100_0000 as real),
    );
}

} // verus!
