//! What the pen physics means in exact arithmetic.
//!
//! Each law says of the track and the point that a sample leaves, up to rounding, which
//! numbers they hold, on an arithmetic that computes closely.

use crate::constants::{
    EIGHT_TENTHS, FULL_TURN, HALF, HUNDREDTH, ONE, QUARTER_TURN, SEVEN_TENTHS, SIXTY, TENTH,
    TEN_THOUSANDTH, THOUSAND, THREE_TENTHS, TWO, TWO_TENTHS, ZERO,
};
use crate::exact::{
    cancel, choices_are_those_of_numbers, computes_closely, constants_are_numbers,
    differences_stay_near, distribute, dust, extent, extent_of_product, greater, keeps_time_closely,
    knows_angles, lesser, near, negation_is_that_of_numbers, number, parts, pattern_stands_for,
    product_sign, products_keep_parts, products_stay_near, quotient_times_divisor,
    quotients_keep_parts, quotients_stay_near, reorder, rounded, roundings, scale_bound, specks,
    spread, sums_stay_near, ulp,
};
use crate::number::{single, Single};
use crate::physics::{
    elapsed, fresh, length, paused, resumed, since, step, HandProfile, PenState, RawSample, Track,
};
use crate::rounding::finite;
use crate::unit::{FloatUnit, Op};
use vstd::arithmetic::power2::lemma2_to64;
use vstd::prelude::*;

verus! {

/// Whether a single is finite and within 2^64 of zero.
pub open spec fn is_moderate(a: Single) -> bool {
    finite(a) && extent(number(a)) <= 0x1_0000_0000_0000_0000 as real
}

/// The share of a raw pressure in the smoothed one, in exact arithmetic: the time since
/// the sample before over the time constant, up to one. The time is in seconds, the time
/// constant in milliseconds.
pub open spec fn exact_share(dt: Single, smooth_ms: Single) -> real {
    lesser(1 as real, 1000 as real * number(dt) / number(smooth_ms))
}

/// The share that the arithmetic comes to.
proof fn shares_are_close<F: Fn(Op, u64, u64) -> u64>(
    unit: FloatUnit<F>,
    dt: Single,
    smooth_ms: Single,
)
    requires
        computes_closely(unit),
        finite(dt),
        0 as real <= number(dt) <= 0x10_0000_0000 as real,
        finite(smooth_ms),
        number(smooth_ms) * (0x100_0000_0000 as real) >= 1 as real,
    ensures
        near(
            unit.over(unit.times(dt, single(THOUSAND)), smooth_ms).smaller(single(ONE)),
            exact_share(dt, smooth_ms),
            parts(8),
        ),
        0 as real <= exact_share(dt, smooth_ms) <= 1 as real,
{
    constants_are_numbers();
    let (d, ms) = (number(dt), number(smooth_ms));
    let zero = 0 as real;
    let t = unit.times(dt, single(THOUSAND));
    assert(spread(d, 1000 as real, zero, zero) == zero);
    products_stay_near(unit, dt, single(THOUSAND), d, 1000 as real, zero, zero);
    let x = d * (1000 as real);
    let e = x * ulp() + dust();
    assert(near(t, x, e));
    let q = x / ms;
    assert(q * ms == x && q >= zero) by (nonlinear_arith)
        requires
            q == x / ms,
            ms > zero,
            x >= zero,
            zero == 0 as real,
    ;
    let scale = 0x100_0000_0000 as real;
    assert(q <= x * scale) by (nonlinear_arith)
        requires
            q * ms == x,
            ms * scale >= 1 as real,
            q >= 0 as real,
            scale > 0 as real,
    ;
    let f = e / ms;
    let u = ulp();
    let g = dust();
    assert(f <= q * u + g * scale) by (nonlinear_arith)
        requires
            f == e / ms,
            e == x * u + g,
            q * ms == x,
            ms * scale >= 1 as real,
            ms > 0 as real,
            g > 0 as real,
            scale > 0 as real,
    ;
    quotients_stay_near(unit, t, smooth_ms, x, e);
    let a = unit.over(t, smooth_ms);
    choices_are_those_of_numbers(a, single(ONE));
    assert(1000 as real * d == x);
    scale_bound(f, q * u + g * scale, u);
    assert(q * u * u <= q * u) by (nonlinear_arith)
        requires
            q >= 0 as real,
            u * 2 as real <= 1 as real,
            u > 0 as real,
    ;
    assert(near(a, q, 3 as real * (q * u) + 3 as real * (g * scale)));
}

/// The smoothed pressure is the weighted mean of the one before and the raw one, the
/// latter with the share that the time since the sample before has of the time constant:
/// all of it once that time has passed.
pub proof fn pressure_is_a_weighted_mean<F: Fn(Op, u64, u64) -> u64>(
    unit: FloatUnit<F>,
    track: Track,
    raw: RawSample,
)
    requires
        computes_closely(unit),
        keeps_time_closely(unit),
        is_moderate(track.state.prev_raw_pressure),
        is_moderate(raw.pressure),
        finite(track.profile.pressure_smooth_ms),
        number(track.profile.pressure_smooth_ms) * (0x100_0000_0000 as real) >= 1 as real,
    ensures
        ({
            let before = number(track.state.prev_raw_pressure);
            let new = number(raw.pressure);
            let share = exact_share(
                elapsed(unit, track, raw.timestamp),
                track.profile.pressure_smooth_ms,
            );
            near(
                step(unit, track, raw).0.state.prev_raw_pressure,
                before * (1 as real - share) + new * share,
                smoothing_error(before, new),
            )
        }),
{
    let dt = elapsed(unit, track, raw.timestamp);
    elapsed_is_bounded(unit, track, raw.timestamp);
    let ms = track.profile.pressure_smooth_ms;
    shares_are_close(unit, dt, ms);
    constants_are_numbers();
    let alpha = unit.over(unit.times(dt, single(THOUSAND)), ms).smaller(single(ONE));
    let share = exact_share(dt, ms);
    let (p, q) = (track.state.prev_raw_pressure, raw.pressure);
    let (x, y) = (number(p), number(q));
    let zero = 0 as real;
    differences_stay_near(unit, single(ONE), alpha, 1 as real, share, zero, parts(8));
    let rest = unit.minus(single(ONE), alpha);
    assert(near(rest, 1 as real - share, parts(10)));
    fractions_stay_near(unit, p, rest, 1 as real - share);
    fractions_stay_near(unit, q, alpha, share);
    fraction_bounds(x, 1 as real - share);
    fraction_bounds(y, share);
    sums_stay_near(
        unit,
        unit.times(p, rest),
        unit.times(q, alpha),
        x * (1 as real - share),
        y * share,
        roundings(12, extent(x)) + dust(),
        roundings(12, extent(y)) + dust(),
    );
}

/// How far the smoothed pressure may be off.
pub open spec fn smoothing_error(before: real, new: real) -> real {
    roundings(16, extent(before) + extent(new)) + 16 as real * dust()
}

/// A product with a number from 0 to 1 is no larger.
proof fn fraction_bounds(x: real, k: real)
    requires
        0 as real <= k <= 1 as real,
    ensures
        extent(x * k) <= extent(x),
{
    assert(extent(x * k) <= extent(x)) by (nonlinear_arith)
        requires
            0 as real <= k <= 1 as real,
    ;
}

/// A product with a number that is close to one from 0 to 1.
proof fn fractions_stay_near<F: Fn(Op, u64, u64) -> u64>(
    unit: FloatUnit<F>,
    a: Single,
    b: Single,
    k: real,
)
    requires
        computes_closely(unit),
        is_moderate(a),
        0 as real <= k <= 1 as real,
        near(b, k, parts(10)),
    ensures
        near(
            unit.times(a, b),
            number(a) * k,
            roundings(12, extent(number(a))) + dust(),
        ),
{
    let x = number(a);
    let zero = 0 as real;
    assert(extent(k) * zero == zero && zero * (parts(10)) == zero) by (nonlinear_arith)
        requires
            zero == 0 as real,
    ;
    assert(spread(x, k, zero, parts(10)) == roundings(10, extent(x)));
    fraction_bounds(x, k);
    products_stay_near(unit, a, b, x, k, zero, parts(10));
    scale_bound(extent(x * k), extent(x), ulp());
}

/// The time since the sample before is at least a tenth of a millisecond, and no more
/// than a clock of nanoseconds can show.
proof fn elapsed_is_bounded<F: Fn(Op, u64, u64) -> u64>(
    unit: FloatUnit<F>,
    track: Track,
    timestamp: u64,
)
    requires
        keeps_time_closely(unit),
    ensures
        finite(elapsed(unit, track, timestamp)),
        number(elapsed(unit, track, timestamp)) >= number(single(TEN_THOUSANDTH)),
        number(elapsed(unit, track, timestamp)) <= 0x10_0000_0000 as real,
        number(single(TEN_THOUSANDTH)) * (10_001 as real) >= 1 as real,
{
    constants_are_numbers();
    let last = unit.in_nanos(track.state.session_time_secs);
    let nanos = since(since(timestamp, track.session_start), last);
    let seconds = unit.in_seconds(nanos);
    let x = (nanos as real) / (1_000_000_000 as real);
    assert(near(seconds, x, roundings(4, x)));
    assert(nanos as real <= 0x1_0000_0000_0000_0000 as real);
    choices_are_those_of_numbers(seconds, single(TEN_THOUSANDTH));
}

/// The smoothed pressure lies between the smoothed pressure before and the raw one, up to
/// rounding. A raw pressure that equals the one before leaves it unchanged.
pub proof fn smoothing_stays_between<F: Fn(Op, u64, u64) -> u64>(
    unit: FloatUnit<F>,
    track: Track,
    raw: RawSample,
)
    requires
        computes_closely(unit),
        keeps_time_closely(unit),
        is_moderate(track.state.prev_raw_pressure),
        is_moderate(raw.pressure),
        finite(track.profile.pressure_smooth_ms),
        number(track.profile.pressure_smooth_ms) * (0x100_0000_0000 as real) >= 1 as real,
    ensures
        ({
            let before = number(track.state.prev_raw_pressure);
            let new = number(raw.pressure);
            let after = number(step(unit, track, raw).0.state.prev_raw_pressure);
            let off = smoothing_error(before, new);
            &&& lesser(before, new) - off <= after <= greater(before, new) + off
            &&& before == new ==> extent(after - before) <= off
        }),
{
    pressure_is_a_weighted_mean(unit, track, raw);
    let dt = elapsed(unit, track, raw.timestamp);
    elapsed_is_bounded(unit, track, raw.timestamp);
    shares_are_close(unit, dt, track.profile.pressure_smooth_ms);
    let (x, y) = (number(track.state.prev_raw_pressure), number(raw.pressure));
    mean_is_between(x, y, exact_share(dt, track.profile.pressure_smooth_ms));
}

/// A weighted mean lies between its two numbers.
proof fn mean_is_between(x: real, y: real, k: real)
    requires
        0 as real <= k <= 1 as real,
    ensures
        lesser(x, y) <= x * (1 as real - k) + y * k <= greater(x, y),
{
    let rest = 1 as real - k;
    distribute(x, rest, k);
    distribute(y, rest, k);
    let whole = rest + k;
    assert(x * whole == x && y * whole == y) by (nonlinear_arith)
        requires
            whole == 1 as real,
    ;
    if x <= y {
        scale_bound(x, y, k);
        scale_bound(x, y, rest);
    } else {
        scale_bound(y, x, k);
        scale_bound(y, x, rest);
    }
}

/// Of two pens that differ in the smoothed pressure before, the one that had more comes
/// out with more: what it has more after a sample is what it had more before, less the
/// share of the raw pressure, up to rounding. As long as the time constant has not
/// passed, that is some of it.
pub proof fn more_pressure_before_is_more_after<F: Fn(Op, u64, u64) -> u64>(
    unit: FloatUnit<F>,
    less: Track,
    more: Track,
    raw: RawSample,
)
    requires
        computes_closely(unit),
        keeps_time_closely(unit),
        more == (Track {
            state: PenState { prev_raw_pressure: more.state.prev_raw_pressure, ..less.state },
            ..less
        }),
        is_moderate(less.state.prev_raw_pressure),
        is_moderate(more.state.prev_raw_pressure),
        number(less.state.prev_raw_pressure) <= number(more.state.prev_raw_pressure),
        is_moderate(raw.pressure),
        finite(less.profile.pressure_smooth_ms),
        number(less.profile.pressure_smooth_ms) * (0x100_0000_0000 as real) >= 1 as real,
    ensures
        ({
            let (x, y) = (
                number(less.state.prev_raw_pressure),
                number(more.state.prev_raw_pressure),
            );
            let new = number(raw.pressure);
            let after_less = number(step(unit, less, raw).0.state.prev_raw_pressure);
            let after_more = number(step(unit, more, raw).0.state.prev_raw_pressure);
            let share = exact_share(
                elapsed(unit, less, raw.timestamp),
                less.profile.pressure_smooth_ms,
            );
            let off = smoothing_error(x, new) + smoothing_error(y, new);
            &&& extent(after_more - after_less - (y - x) * (1 as real - share)) <= off
            &&& after_more >= after_less - off
            &&& x < y && share < 1 as real ==> (y - x) * (1 as real - share) > 0 as real
        }),
{
    pressure_is_a_weighted_mean(unit, less, raw);
    pressure_is_a_weighted_mean(unit, more, raw);
    assert(elapsed(unit, less, raw.timestamp) == elapsed(unit, more, raw.timestamp));
    let dt = elapsed(unit, less, raw.timestamp);
    elapsed_is_bounded(unit, less, raw.timestamp);
    shares_are_close(unit, dt, less.profile.pressure_smooth_ms);
    let (x, y) = (number(less.state.prev_raw_pressure), number(more.state.prev_raw_pressure));
    let rest = 1 as real - exact_share(dt, less.profile.pressure_smooth_ms);
    distribute(rest, y - x, x);
    product_sign(y - x, rest);
    if x < y && rest > 0 as real {
        assert((y - x) * rest > 0 as real) by (nonlinear_arith)
            requires
                y - x > 0 as real,
                rest > 0 as real,
        ;
    }
}

/// The time since the sample before is that between the two instants, where it is at
/// least a tenth of a millisecond, up to two nanoseconds and rounding. The sample before
/// was taken so many seconds into the session as the state says.
pub proof fn time_passes_between_samples<F: Fn(Op, u64, u64) -> u64>(
    unit: FloatUnit<F>,
    track: Track,
    timestamp: u64,
)
    requires
        keeps_time_closely(unit),
        finite(track.state.session_time_secs),
        0 as real <= number(track.state.session_time_secs) <= 1_000_000_000 as real,
    ensures
        ({
            let now = (timestamp - track.session_start) as real / (1_000_000_000 as real);
            let passed = greater(
                (1 as real) / (10_000 as real),
                now - number(track.state.session_time_secs),
            );
            near(
                elapsed(unit, track, timestamp),
                passed,
                (2 as real) / (1_000_000_000 as real) + roundings(8, passed),
            )
        }),
{
    constants_are_numbers();
    let last = unit.in_nanos(track.state.session_time_secs);
    let nanos = since(since(timestamp, track.session_start), last);
    let seconds = unit.in_seconds(nanos);
    let x = (nanos as real) / (1_000_000_000 as real);
    assert(near(seconds, x, roundings(4, x)));
    choices_are_those_of_numbers(seconds, single(TEN_THOUSANDTH));
    let whole = timestamp - track.session_start;
    let m = number(track.state.session_time_secs);
    assert(extent(last as real - m * 1_000_000_000 as real) <= 1 as real);
}

/// A quotient of two numbers that are known.
proof fn known_quotients<F: Fn(Op, u64, u64) -> u64>(unit: FloatUnit<F>, a: Single, b: Single)
    requires
        computes_closely(unit),
        is_moderate(a),
        finite(b),
        number(b) * (0x4000_0000 as real) >= 1 as real,
    ensures
        near(
            unit.over(a, b),
            number(a) / number(b),
            roundings(1, extent(number(a) / number(b))) + dust(),
        ),
        extent(number(a) / number(b)) <= extent(number(a)) * (0x4000_0000 as real),
{
    let (x, y) = (number(a), number(b));
    let q = x / y;
    let scale = 0x4000_0000 as real;
    quotient_times_divisor(x, y);
    extent_of_product(q, y);
    let w = extent(q);
    scale_bound(1 as real, y * scale, w);
    reorder(w, y, scale);
    reorder(w, y * scale, y);
    assert(w <= extent(x) * scale);
}

/// A sample puts the pen where it says, in millimetres: its position in pixels over the
/// pixels to the millimetre.
pub proof fn a_sample_moves_the_pen<F: Fn(Op, u64, u64) -> u64>(
    unit: FloatUnit<F>,
    track: Track,
    raw: RawSample,
    axis: int,
)
    requires
        computes_closely(unit),
        0 <= axis < 2,
        is_moderate(raw.pos_px[axis]),
        finite(track.dpi_mm),
        number(track.dpi_mm) * (0x4000_0000 as real) >= 1 as real,
    ensures
        ({
            let exact = number(raw.pos_px[axis]) / number(track.dpi_mm);
            near(
                step(unit, track, raw).0.state.pos_mm[axis],
                exact,
                roundings(1, extent(exact)) + dust(),
            )
        }),
{
    known_quotients(unit, raw.pos_px[axis], track.dpi_mm);
}

/// The velocity after a sample is the way from the position before to the one after, over
/// the time between the two.
pub proof fn velocity_is_way_over_time<F: Fn(Op, u64, u64) -> u64>(
    unit: FloatUnit<F>,
    track: Track,
    raw: RawSample,
    axis: int,
)
    requires
        computes_closely(unit),
        keeps_time_closely(unit),
        0 <= axis < 2,
        is_moderate(track.state.pos_mm[axis]),
        is_moderate(step(unit, track, raw).0.state.pos_mm[axis]),
    ensures
        ({
            let after = step(unit, track, raw).0.state;
            let way = number(after.pos_mm[axis]) - number(track.state.pos_mm[axis]);
            let time = number(elapsed(unit, track, raw.timestamp));
            &&& time > 0 as real
            &&& near(
                after.velocity_mm_s[axis],
                way / time,
                roundings(4, extent(way / time)) + 0x1_0000 as real * dust(),
            )
        }),
{
    let after = step(unit, track, raw).0.state;
    let dt = elapsed(unit, track, raw.timestamp);
    elapsed_is_bounded(unit, track, raw.timestamp);
    let (from, to) = (track.state.pos_mm[axis], after.pos_mm[axis]);
    let x = number(to) - number(from);
    let y = number(dt);
    let zero = 0 as real;
    let way = unit.minus(to, from);
    assert(rounded(way, x));
    assert(near(way, x, extent(x) * ulp() + dust()));
    assert(y * zero == zero) by {
        reorder(y, zero, zero);
    }
    let q = x / y;
    quotient_times_divisor(x, y);
    extent_of_product(q, y);
    let w = extent(q);
    scale_bound(1 as real, y * (10_001 as real), w);
    reorder(w, y, 10_001 as real);
    reorder(w, y * (10_001 as real), y);
    assert(w <= extent(x) * (10_001 as real));
    let k = 0x1_0000 as real * dust();
    let c = k - dust();
    assert(c == (0xFFFF as real) / (0x100_0000_0000_0000_0000_0000_0000_0000 as real));
    scale_bound((1 as real) / (10_001 as real), y, c);
    reorder(c, y, y);
    reorder(c, (1 as real) / (10_001 as real), c);
    quotients_keep_parts(unit, way, dt, x, y, ulp(), dust(), zero, parts(4), k);
}

/// A pressure above the threshold comes out as what it has above it, scaled so that the
/// full pressure is one, and never more than one. A pen in the air has none.
pub proof fn contact_is_scaled_to_one<F: Fn(Op, u64, u64) -> u64>(
    unit: FloatUnit<F>,
    track: Track,
    raw: RawSample,
)
    requires
        computes_closely(unit),
        finite(track.profile.pressure_threshold),
        0 as real <= number(track.profile.pressure_threshold) <= (15 as real) / (16 as real),
        is_moderate(step(unit, track, raw).0.state.prev_raw_pressure),
    ensures
        ({
            let after = step(unit, track, raw).0.state;
            let (s, t) = (
                number(after.prev_raw_pressure),
                number(track.profile.pressure_threshold),
            );
            if after.is_down == 0 {
                number(after.pressure) == 0 as real
            } else {
                s > t && near(
                    after.pressure,
                    lesser(1 as real, (s - t) / (1 as real - t)),
                    parts(32),
                )
            }
        }),
{
    constants_are_numbers();
    let after = step(unit, track, raw).0.state;
    let (smooth, threshold) = (after.prev_raw_pressure, track.profile.pressure_threshold);
    choices_are_those_of_numbers(threshold, smooth);
    let (s, t) = (number(smooth), number(threshold));
    if s > t {
        let above = unit.minus(smooth, threshold);
        let range = unit.minus(single(ONE), threshold);
        assert(rounded(above, s - t));
        assert(rounded(range, 1 as real - t));
        let (x, y) = (s - t, 1 as real - t);
        assert(y * parts(2) >= y * ulp() + dust());
        let q = x / y;
        quotient_times_divisor(x, y);
        extent_of_product(q, y);
        let w = extent(q);
        scale_bound(1 as real, y * (16 as real), w);
        reorder(w, y, 16 as real);
        reorder(w, y * (16 as real), y);
        assert(w <= extent(x) * (16 as real));
        let k = 0x100 as real * dust();
        quotients_keep_parts(unit, above, range, x, y, ulp(), dust(), parts(2), parts(8), k);
        choices_are_those_of_numbers(unit.over(above, range), single(ONE));
        assert(q >= 0 as real) by {
            if q < 0 as real {
                assert(q * y < 0 as real) by (nonlinear_arith)
                    requires
                        q < 0 as real,
                        y > 0 as real,
                ;
            }
        }
    }
}

/// An error too small to see: 2^-50.
#[verifier::inline]
pub open spec fn grain() -> real {
    (1 as real) / (0x4_0000_0000_0000 as real)
}

/// Whether a single is finite and within 2^40 of zero.
pub open spec fn is_ordinary(a: Single) -> bool {
    finite(a) && extent(number(a)) <= 0x100_0000_0000 as real
}

/// The squares of numbers within a bound.
proof fn squares_are_bounded(x: real, bound: real)
    requires
        extent(x) <= bound,
    ensures
        0 as real <= x * x <= bound * bound,
{
    assert(0 as real <= x * x <= bound * bound) by (nonlinear_arith)
        requires
            extent(x) <= bound,
    ;
}

/// The length of a vector is the number that is not negative and whose square is the sum
/// of the squares of its components.
pub proof fn lengths_are_close<F: Fn(Op, u64, u64) -> u64>(
    unit: FloatUnit<F>,
    v: [Single; 2],
    exact: real,
)
    requires
        computes_closely(unit),
        is_ordinary(v[0]),
        is_ordinary(v[1]),
        exact >= 0 as real,
        exact * exact == number(v[0]) * number(v[0]) + number(v[1]) * number(v[1]),
    ensures
        near(length(unit, v), exact, roundings(8, exact) + grain()),
        number(length(unit, v)) >= 0 as real,
        extent(number(v[0])) <= exact,
        extent(number(v[1])) <= exact,
{
    let (x, y) = (number(v[0]), number(v[1]));
    let big = 0x100_0000_0000 as real;
    squares_are_bounded(x, big);
    squares_are_bounded(y, big);
    let (a, b) = (unit.times(v[0], v[0]), unit.times(v[1], v[1]));
    assert(rounded(a, x * x));
    assert(rounded(b, y * y));
    let square = unit.plus(a, b);
    sums_stay_near(
        unit,
        a,
        b,
        x * x,
        y * y,
        (x * x) * ulp() + dust(),
        (y * y) * ulp() + dust(),
    );
    let z = exact * exact;
    assert(near(square, z, roundings(3, z) + 4 as real * dust()));
    assert(rounded(square, number(a) + number(b)));
    root_is_close(unit, square, exact);
    if exact < extent(x) {
        squares_are_bounded(exact, extent(x));
        assert(exact * exact < x * x) by (nonlinear_arith)
            requires
                0 as real <= exact < extent(x),
        ;
    }
    if exact < extent(y) {
        assert(exact * exact < y * y) by (nonlinear_arith)
            requires
                0 as real <= exact < extent(y),
        ;
    }
}

/// The root of a number that is close to a square.
pub proof fn root_is_close<F: Fn(Op, u64, u64) -> u64>(
    unit: FloatUnit<F>,
    square: Single,
    exact: real,
)
    requires
        computes_closely(unit),
        exact >= 0 as real,
        number(square) >= 0 as real,
        near(square, exact * exact, roundings(4, exact * exact) + 4 as real * dust()),
    ensures
        near(unit.root(square), exact, roundings(8, exact) + grain()),
        number(unit.root(square)) >= 0 as real,
{
    let z = exact * exact;
    let n = number(square);
    let root = unit.root(square);
    product_sign(exact, exact);
    let r = number(root);
    // r r is close to n, which is close to z.
    assert(extent(r * r - z) <= roundings(8, z) + 5 as real * dust());
    let gap = r - exact;
    let sum = r + exact;
    assert(gap * sum == r * r - z) by (nonlinear_arith)
        requires
            gap == r - exact,
            sum == r + exact,
            z == exact * exact,
    ;
    extent_of_product(gap, sum);
    let w = extent(gap);
    let tiny = (1 as real) / (0x1000_0000_0000_0000 as real);
    if sum <= tiny {
        assert(w <= grain());
    } else {
        // w sum <= 8 z u + 5 d, and z <= exact sum
        scale_bound(exact, sum, exact);
        reorder(exact, sum, exact);
        let limit = roundings(8, exact) + grain();
        distribute(sum, roundings(8, exact), grain());
        reorder(sum, exact, ulp());
        reorder(sum, 8 as real, exact * ulp());
        reorder(w, sum, sum);
        reorder(sum, limit, limit);
        assert(w * sum <= roundings(8, z) + 5 as real * dust());
        assert(sum * grain() >= 5 as real * dust());
        assert(sum * limit >= roundings(8, z) + 5 as real * dust());
        cancel(w, limit, sum);
    }
}

/// Whether a single is finite, and as a number not negative and within a bound.
pub open spec fn is_up_to(a: Single, bound: real) -> bool {
    finite(a) && 0 as real <= number(a) <= bound
}

/// Minutes of writing times the rate of the fatigue.
proof fn minutes_times_rate<F: Fn(Op, u64, u64) -> u64>(
    unit: FloatUnit<F>,
    seconds: Single,
    rate: Single,
)
    requires
        computes_closely(unit),
        is_up_to(seconds, 0x10_0000_0000 as real),
        is_up_to(rate, 1024 as real),
    ensures
        ({
            let exact = number(seconds) / (60 as real) * number(rate);
            &&& near(
                unit.times(unit.over(seconds, single(SIXTY)), rate),
                exact,
                exact * parts(4) + 0x1000 as real * dust(),
            )
            &&& 0 as real <= exact <= 0x200_0000_0000 as real
        }),
{
    constants_are_numbers();
    let x = number(seconds) / (60 as real);
    let y = number(rate);
    let zero = 0 as real;
    let mins = unit.over(seconds, single(SIXTY));
    assert(number(seconds) / number(single(SIXTY)) == x);
    assert(rounded(mins, x));
    product_sign(x, y);
    scale_bound(y, 1024 as real, x);
    reorder(y, x, zero);
    reorder(1024 as real, x, zero);
    reorder(extent(y), zero, zero);
    reorder(extent(x), zero, zero);
    reorder(dust(), zero, zero);
    products_keep_parts(
        unit,
        mins,
        rate,
        x,
        y,
        ulp(),
        dust(),
        zero,
        zero,
        parts(4),
        0x1000 as real * dust(),
    );
}

/// While the pen is down, the tremor multiplier is one and the rate for each minute of the
/// stroke so far, times one and three tenths of the rate for each minute of the session so
/// far, and never above the cap. A pen that comes down starts its stroke anew.
pub proof fn fatigue_grows_with_time<F: Fn(Op, u64, u64) -> u64>(
    unit: FloatUnit<F>,
    track: Track,
    raw: RawSample,
)
    requires
        computes_closely(unit),
        step(unit, track, raw).1 is Some,
        is_up_to(track.state.session_time_secs, 0x10_0000_0000 as real),
        is_up_to(track.state.stroke_time_secs, 0x10_0000_0000 as real),
        is_up_to(track.profile.fatigue_per_minute, 1024 as real),
        finite(track.profile.max_fatigue),
    ensures
        ({
            let rate = number(track.profile.fatigue_per_minute);
            let stroke = if track.state.is_down != 0 {
                number(track.state.stroke_time_secs)
            } else {
                0 as real
            };
            let session = number(track.state.session_time_secs);
            let grown = (1 as real + stroke / (60 as real) * rate) * (1 as real + session / (
            60 as real) * rate * ((3 as real) / (10 as real)));
            near(
                step(unit, track, raw).0.state.fatigue,
                lesser(grown, number(track.profile.max_fatigue)),
                roundings(64, grown),
            )
        }),
{
    constants_are_numbers();
    let zero = 0 as real;
    let rate = track.profile.fatigue_per_minute;
    let stroke_secs = if track.state.is_down != 0 {
        track.state.stroke_time_secs
    } else {
        single(ZERO)
    };
    let session_secs = track.state.session_time_secs;
    let a = number(stroke_secs) / (60 as real) * number(rate);
    let b = number(session_secs) / (60 as real) * number(rate);
    minutes_times_rate(unit, stroke_secs, rate);
    minutes_times_rate(unit, session_secs, rate);
    let first = unit.times(unit.over(stroke_secs, single(SIXTY)), rate);
    let second = unit.times(unit.over(session_secs, single(SIXTY)), rate);
    sums_stay_near(
        unit,
        single(ONE),
        first,
        1 as real,
        a,
        zero,
        a * parts(4) + 0x1000 as real * dust(),
    );
    let active = unit.plus(single(ONE), first);
    let x = 1 as real + a;
    assert(near(active, x, x * parts(6)));
    let three_tenths = (3 as real) / (10 as real);
    products_keep_parts(
        unit,
        second,
        single(THREE_TENTHS),
        b,
        three_tenths,
        parts(4),
        0x1000 as real * dust(),
        parts(4),
        zero,
        parts(14),
        0x1000 as real * dust(),
    );
    let c = b * three_tenths;
    let third = unit.times(second, single(THREE_TENTHS));
    sums_stay_near(
        unit,
        single(ONE),
        third,
        1 as real,
        c,
        zero,
        c * parts(14) + 0x1000 as real * dust(),
    );
    let global = unit.plus(single(ONE), third);
    let y = 1 as real + c;
    assert(near(global, y, y * parts(16)));
    scale_bound(x, 0x400_0000_0000 as real, y);
    scale_bound(1 as real, x, y);
    reorder(x, y, zero);
    reorder(0x400_0000_0000 as real, y, zero);
    reorder(x, zero, zero);
    reorder(y, zero, zero);
    products_keep_parts(
        unit,
        active,
        global,
        x,
        y,
        parts(6),
        zero,
        parts(16),
        zero,
        parts(40),
        2 as real * dust(),
    );
    choices_are_those_of_numbers(unit.times(active, global), track.profile.max_fatigue);
}

/// A pause halves what the tremor multiplier has above one, and changes nothing else.
pub proof fn a_pause_halves_the_excess<F: Fn(Op, u64, u64) -> u64>(unit: FloatUnit<F>, track: Track)
    requires
        computes_closely(unit),
        is_moderate(track.state.fatigue),
    ensures
        ({
            let before = number(track.state.fatigue);
            let after = paused(unit, track);
            &&& near(
                after.state.fatigue,
                1 as real + (before - 1 as real) / (2 as real),
                roundings(4, extent(before) + 2 as real),
            )
            &&& after == (Track {
                state: PenState { fatigue: after.state.fatigue, ..track.state },
                ..track
            })
        }),
{
    constants_are_numbers();
    let before = number(track.state.fatigue);
    let excess = unit.minus(track.state.fatigue, single(ONE));
    assert(rounded(excess, before - 1 as real));
    let half = unit.times(excess, single(HALF));
    assert(number(excess) * number(single(HALF)) == number(excess) * ((1 as real) / (2 as real)));
    assert(rounded(half, number(excess) * ((1 as real) / (2 as real))));
    assert(rounded(unit.plus(single(ONE), half), 1 as real + number(half)));
}

/// The clocks after a sample. The session has lasted since it started, whether the pen is
/// down or not. The stroke has lasted since it started, which is now for a pen that comes
/// down. The phase of the tremor goes on by as many full turns a second as its frequency.
pub proof fn clocks_go_on<F: Fn(Op, u64, u64) -> u64>(
    unit: FloatUnit<F>,
    track: Track,
    raw: RawSample,
)
    requires
        computes_closely(unit),
        keeps_time_closely(unit),
        raw.timestamp >= track.session_start,
    ensures
        ({
            let (after, point) = step(unit, track, raw);
            let session = (raw.timestamp - track.session_start) as real / (1_000_000_000 as real);
            let stroke = (raw.timestamp - track.stroke_start) as real / (1_000_000_000 as real);
            let phase = number(track.state.tremor_phase);
            let turned = (628_318_531 as real) / (100_000_000 as real) * number(
                track.profile.tremor_freq_hz,
            ) * number(elapsed(unit, track, raw.timestamp));
            &&& near(after.state.session_time_secs, session, roundings(4, session))
            &&& point is Some && track.state.is_down == 0 ==> number(after.state.stroke_time_secs)
                == 0 as real
            &&& point is Some && track.state.is_down != 0 && raw.timestamp >= track.stroke_start
                ==> near(after.state.stroke_time_secs, stroke, roundings(4, stroke))
            &&& point is Some && is_up_to(track.profile.tremor_freq_hz, 0x10_0000 as real)
                && is_moderate(track.state.tremor_phase) ==> near(
                after.state.tremor_phase,
                phase + turned,
                roundings(32, extent(phase) + turned) + grain(),
            )
        }),
{
    constants_are_numbers();
    let whole = (raw.timestamp - track.session_start) as u64;
    assert(near(
        unit.in_seconds(whole),
        (whole as real) / (1_000_000_000 as real),
        roundings(4, (whole as real) / (1_000_000_000 as real)),
    ));
    assert(near(
        unit.in_seconds(0),
        (0u64 as real) / (1_000_000_000 as real),
        roundings(4, (0u64 as real) / (1_000_000_000 as real)),
    ));
    if raw.timestamp >= track.stroke_start {
        let part = (raw.timestamp - track.stroke_start) as u64;
        assert(near(
            unit.in_seconds(part),
            (part as real) / (1_000_000_000 as real),
            roundings(4, (part as real) / (1_000_000_000 as real)),
        ));
    }
    if is_up_to(track.profile.tremor_freq_hz, 0x10_0000 as real) && is_moderate(
        track.state.tremor_phase,
    ) {
        phases_are_close(
            unit,
            track.profile.tremor_freq_hz,
            track.state.tremor_phase,
            elapsed(unit, track, raw.timestamp),
            track,
            raw.timestamp,
        );
    }
}

/// The phase of the tremor, some time on.
proof fn phases_are_close<F: Fn(Op, u64, u64) -> u64>(
    unit: FloatUnit<F>,
    frequency: Single,
    phase: Single,
    dt: Single,
    track: Track,
    timestamp: u64,
)
    requires
        computes_closely(unit),
        keeps_time_closely(unit),
        dt == elapsed(unit, track, timestamp),
        is_up_to(frequency, 0x10_0000 as real),
        is_moderate(phase),
    ensures
        ({
            let turned = (628_318_531 as real) / (100_000_000 as real) * number(frequency)
                * number(dt);
            near(
                unit.plus(
                    phase,
                    unit.times(unit.times(single(FULL_TURN), frequency), dt),
                ),
                number(phase) + turned,
                roundings(32, extent(number(phase)) + turned) + grain(),
            )
        }),
{
    constants_are_numbers();
    elapsed_is_bounded(unit, track, timestamp);
    let zero = 0 as real;
    let turn = (628_318_531 as real) / (100_000_000 as real);
    let (f, d) = (number(frequency), number(dt));
    product_sign(turn, f);
    reorder(turn, f, zero);
    products_keep_parts(
        unit,
        single(FULL_TURN),
        frequency,
        turn,
        f,
        parts(2),
        zero,
        zero,
        zero,
        parts(6),
        specks(2),
    );
    let x = turn * f;
    product_sign(x, d);
    scale_bound(d, 0x10_0000_0000 as real, x);
    reorder(d, x, zero);
    reorder(0x10_0000_0000 as real, x, zero);
    reorder(extent(d), zero, zero);
    reorder(extent(x), zero, zero);
    products_keep_parts(
        unit,
        unit.times(single(FULL_TURN), frequency),
        dt,
        x,
        d,
        parts(6),
        specks(2),
        zero,
        zero,
        parts(14),
        grain() / (4 as real),
    );
    let y = x * d;
    sums_stay_near(
        unit,
        phase,
        unit.times(unit.times(single(FULL_TURN), frequency), dt),
        number(phase),
        y,
        zero,
        y * parts(14) + grain() / (4 as real),
    );
}

/// How upright a pen stands, in exact arithmetic: its altitude as a part of a quarter turn,
/// at least a tenth.
pub open spec fn exact_upright(altitude: Single) -> real {
    greater(
        (1 as real) / (10 as real),
        number(altitude) / ((157_079_633 as real) / (100_000_000 as real)),
    )
}

/// How upright the arithmetic finds a pen.
proof fn uprights_are_close<F: Fn(Op, u64, u64) -> u64>(unit: FloatUnit<F>, altitude: Single)
    requires
        computes_closely(unit),
        is_up_to(altitude, 2 as real),
    ensures
        near(
            unit.over(altitude, single(QUARTER_TURN)).larger(single(TENTH)),
            exact_upright(altitude),
            parts(12),
        ),
        (1 as real) / (10 as real) <= exact_upright(altitude) <= 2 as real,
{
    constants_are_numbers();
    let zero = 0 as real;
    let quarter = (157_079_633 as real) / (100_000_000 as real);
    let x = number(altitude);
    reorder(extent(x), zero, zero);
    quotients_keep_parts(
        unit,
        altitude,
        single(QUARTER_TURN),
        x,
        quarter,
        zero,
        zero,
        parts(3),
        parts(8),
        specks(2),
    );
    choices_are_those_of_numbers(unit.over(altitude, single(QUARTER_TURN)), single(TENTH));
}

/// The ink is as wide as the pressure, weighted, and a hundredth of the speed, weighted,
/// times how upright the pen stands, and at least a tenth of a millimetre. The nib is
/// twice as much wider than high as the pen is from upright, and never narrower. The
/// speed is the length of the velocity.
pub proof fn ink_widens_with_pressure_and_speed<F: Fn(Op, u64, u64) -> u64>(
    unit: FloatUnit<F>,
    track: Track,
    raw: RawSample,
    speed: real,
)
    requires
        computes_closely(unit),
        step(unit, track, raw).1 is Some,
        ({
            let v = step(unit, track, raw).0.state.velocity_mm_s;
            &&& is_ordinary(v[0])
            &&& is_ordinary(v[1])
            &&& speed >= 0 as real
            &&& speed * speed == number(v[0]) * number(v[0]) + number(v[1]) * number(v[1])
        }),
        is_up_to(step(unit, track, raw).0.state.pressure, 1 as real),
        is_up_to(step(unit, track, raw).0.state.slant_altitude_rad, 2 as real),
        is_up_to(track.profile.pressure_sensitivity, 1024 as real),
        is_up_to(track.profile.velocity_width_scale, 1024 as real),
    ensures
        ({
            let after = step(unit, track, raw).0.state;
            let point = step(unit, track, raw).1->0;
            let upright = exact_upright(after.slant_altitude_rad);
            let plain = number(after.pressure) * number(track.profile.pressure_sensitivity) + speed
                * number(track.profile.velocity_width_scale) * ((1 as real) / (100 as real));
            &&& near(
                point.width_mm,
                greater((1 as real) / (10 as real), plain * upright),
                roundings(160, plain) + parts(1),
            )
            &&& near(
                point.aspect_ratio,
                greater(1 as real, 1 as real + (1 as real - upright) * (2 as real)),
                parts(64),
            )
        }),
{
    constants_are_numbers();
    let zero = 0 as real;
    let after = step(unit, track, raw).0.state;
    let altitude = after.slant_altitude_rad;
    uprights_are_close(unit, altitude);
    let upright = unit.over(altitude, single(QUARTER_TURN)).larger(single(TENTH));
    let u = exact_upright(altitude);
    let (sens, scale) = (track.profile.pressure_sensitivity, track.profile.velocity_width_scale);
    let v = after.velocity_mm_s;
    lengths_are_close(unit, v, speed);
    speed_is_bounded(number(v[0]), number(v[1]), speed);
    // pressure
    let (p, q) = (number(after.pressure), number(sens));
    product_sign(p, q);
    fraction_bounds(q, p);
    reorder(p, q, zero);
    let base = unit.times(after.pressure, sens);
    assert(rounded(base, p * q));
    // speed
    let c = number(scale);
    product_sign(speed, c);
    scale_bound(c, 1024 as real, speed);
    reorder(c, speed, zero);
    reorder(1024 as real, speed, zero);
    reorder(extent(speed), zero, zero);
    reorder(extent(c), zero, zero);
    reorder(grain(), zero, zero);
    scale_bound(extent(c), 1024 as real, grain());
    products_keep_parts(
        unit,
        length(unit, v),
        scale,
        speed,
        c,
        parts(8),
        grain(),
        zero,
        zero,
        parts(18),
        0x1000 as real * grain(),
    );
    let fast = unit.times(length(unit, v), scale);
    let y = speed * c;
    let hundredth = (1 as real) / (100 as real);
    reorder(extent(y), zero, zero);
    products_keep_parts(
        unit,
        fast,
        single(HUNDREDTH),
        y,
        hundredth,
        parts(18),
        0x1000 as real * grain(),
        parts(10),
        zero,
        parts(48),
        0x100 as real * grain(),
    );
    let bonus = unit.times(fast, single(HUNDREDTH));
    let z = y * hundredth;
    sums_stay_near(
        unit,
        base,
        bonus,
        p * q,
        z,
        (p * q) * ulp() + dust(),
        z * parts(48) + 0x100 as real * grain(),
    );
    let plain = p * q + z;
    let sum = unit.plus(base, bonus);
    let e = roundings(50, plain) + 0x200 as real * grain();
    assert(near(sum, plain, e));
    widths_are_close(unit, sum, upright, plain, u);
    choices_are_those_of_numbers(unit.times(sum, upright), single(TENTH));
    // aspect
    let rest = unit.minus(single(ONE), upright);
    differences_stay_near(unit, single(ONE), upright, 1 as real, u, zero, parts(12));
    assert(number(rest) * number(single(TWO)) == number(rest) * (2 as real));
    let twice = unit.times(rest, single(TWO));
    assert(rounded(twice, number(rest) * (2 as real)));
    let aspect = unit.plus(single(ONE), twice);
    assert(rounded(aspect, 1 as real + number(twice)));
    choices_are_those_of_numbers(aspect, single(ONE));
}

/// A speed whose components are ordinary.
proof fn speed_is_bounded(x: real, y: real, speed: real)
    requires
        extent(x) <= 0x100_0000_0000 as real,
        extent(y) <= 0x100_0000_0000 as real,
        speed >= 0 as real,
        speed * speed == x * x + y * y,
    ensures
        speed <= 0x200_0000_0000 as real,
{
    squares_are_bounded(x, 0x100_0000_0000 as real);
    squares_are_bounded(y, 0x100_0000_0000 as real);
    let big = 0x200_0000_0000 as real;
    if speed > big {
        assert(speed * speed > big * big) by (nonlinear_arith)
            requires
                speed > big,
                big > 0 as real,
        ;
    }
}

/// A width times how upright the pen stands.
proof fn widths_are_close<F: Fn(Op, u64, u64) -> u64>(
    unit: FloatUnit<F>,
    sum: Single,
    upright: Single,
    plain: real,
    u: real,
)
    requires
        computes_closely(unit),
        0 as real <= plain <= 0x10_0000_0000_0000_0000 as real,
        0 as real <= u <= 2 as real,
        near(sum, plain, roundings(50, plain) + 0x200 as real * grain()),
        near(upright, u, parts(12)),
    ensures
        near(
            unit.times(sum, upright),
            plain * u,
            roundings(150, plain) + 0x1000 as real * grain(),
        ),
{
    let e = roundings(50, plain) + 0x200 as real * grain();
    scale_bound(u, 2 as real, plain);
    scale_bound(u, 2 as real, e);
    product_sign(plain, u);
    reorder(u, plain, u);
    reorder(u, e, u);
    reorder(2 as real, plain, u);
    reorder(2 as real, e, u);
    assert(e * parts(12) <= e);
    assert(e * parts(12) <= roundings(1, plain) + grain());
    products_stay_near(unit, sum, upright, plain, u, e, parts(12));
}

/// A component over the length of its vector.
pub proof fn unit_quotient<F: Fn(Op, u64, u64) -> u64>(
    unit: FloatUnit<F>,
    a: Single,
    size: Single,
    exact: real,
)
    requires
        computes_closely(unit),
        is_ordinary(a),
        extent(number(a)) <= exact,
        exact * (2_000_000 as real) >= 1 as real,
        near(size, exact, exact * parts(9)),
    ensures
        near(unit.over(a, size), number(a) / exact, parts(32)),
        extent(number(a) / exact) <= 1 as real,
{
    let x = number(a);
    let zero = 0 as real;
    quotient_times_divisor(x, exact);
    let q = x / exact;
    extent_of_product(q, exact);
    let w = extent(q);
    if w > 1 as real {
        assert(w * exact > exact) by (nonlinear_arith)
            requires
                w > 1 as real,
                exact > 0 as real,
        ;
    }
    reorder(extent(x), zero, zero);
    let k = 2 as real * dust();
    let c = k - dust();
    assert(c * exact >= zero) by (nonlinear_arith)
        requires
            c >= zero,
            exact > zero,
            zero == 0 as real,
    ;
    quotients_keep_parts(unit, a, size, x, exact, zero, zero, parts(9), parts(20), k);
    scale_bound(w, 1 as real, parts(20));
}

/// How far the tremor moves the pen along one axis.
proof fn offsets_are_close<F: Fn(Op, u64, u64) -> u64>(
    unit: FloatUnit<F>,
    direction: Single,
    amplitude: Single,
    wave: Single,
    x: real,
    a: real,
)
    requires
        computes_closely(unit),
        near(direction, x, parts(32)),
        extent(x) <= 1 as real,
        0 as real <= a <= 0x10_0000 as real,
        near(amplitude, a, a * ulp() + dust()),
        near(wave, 0 as real, 1 as real),
    ensures
        near(
            unit.times(unit.times(direction, amplitude), wave),
            x * a * number(wave),
            roundings(40, a) + specks(8),
        ),
        extent(x * a * number(wave)) <= a,
{
    let zero = 0 as real;
    let w = number(wave);
    let f = a * ulp() + dust();
    extent_of_product(x, a);
    scale_bound(extent(x), 1 as real, a);
    scale_bound(extent(x), 1 as real, f);
    reorder(extent(x), f, f);
    reorder(parts(32), f, f);
    products_stay_near(unit, direction, amplitude, x, a, parts(32), f);
    let y = x * a;
    let e = roundings(36, a) + specks(4);
    let first = unit.times(direction, amplitude);
    assert(near(first, y, e));
    extent_of_product(y, w);
    scale_bound(extent(w), 1 as real, extent(y));
    reorder(extent(w), extent(y), zero);
    scale_bound(extent(w), 1 as real, e);
    reorder(extent(y), zero, zero);
    reorder(e, zero, zero);
    products_stay_near(unit, first, wave, y, w, e, zero);
}

/// Whether a place is another one moved by some of an amplitude, up to rounding.
pub open spec fn is_moved(at: Single, from: Single, by: real, amplitude: real) -> bool {
    near(
        at,
        number(from) + by,
        roundings(4, extent(number(from))) + roundings(64, amplitude) + grain(),
    )
}

/// A place with the tremor on it.
proof fn places_tremble<F: Fn(Op, u64, u64) -> u64>(
    unit: FloatUnit<F>,
    from: Single,
    by: Single,
    x: real,
    a: real,
)
    requires
        computes_closely(unit),
        is_ordinary(from),
        0 as real <= a <= 0x10_0000 as real,
        extent(x) <= a,
        near(by, x, roundings(40, a) + specks(8)),
    ensures
        is_moved(unit.plus(from, by), from, x, a),
{
    assert(rounded(unit.plus(from, by), number(from) + number(by)));
}

/// A pen that is down writes where it is, moved by the tremor: the amplitude of the hand
/// times its fatigue, as far as the wave of its phase goes. Above a millimetre a second
/// the tremor goes across the movement, to its left where the wave is positive; below, in
/// a direction that turns with seven tenths of the phase. The point has the pressure, the
/// slant and the session time of the pen.
pub proof fn a_pen_writes_where_it_is<F: Fn(Op, u64, u64) -> u64>(
    unit: FloatUnit<F>,
    track: Track,
    raw: RawSample,
    speed: real,
)
    requires
        computes_closely(unit),
        knows_angles(unit),
        step(unit, track, raw).1 is Some,
        ({
            let after = step(unit, track, raw).0.state;
            let v = after.velocity_mm_s;
            &&& is_ordinary(v[0])
            &&& is_ordinary(v[1])
            &&& speed >= 0 as real
            &&& speed * speed == number(v[0]) * number(v[0]) + number(v[1]) * number(v[1])
            &&& is_ordinary(after.pos_mm[0])
            &&& is_ordinary(after.pos_mm[1])
            &&& is_moderate(after.tremor_phase)
            &&& is_up_to(after.fatigue, 1024 as real)
        }),
        is_up_to(track.profile.tremor_base_amplitude_mm, 1024 as real),
    ensures
        ({
            let after = step(unit, track, raw).0.state;
            let point = step(unit, track, raw).1->0;
            let v = after.velocity_mm_s;
            let amplitude = number(track.profile.tremor_base_amplitude_mm) * number(after.fatigue);
            let wave = number(unit.sine(after.tremor_phase));
            let (x, y) = (after.pos_mm[0], after.pos_mm[1]);
            &&& number(length(unit, v)) > 1 as real ==> {
                &&& is_moved(
                    point.pos_mm_x,
                    x,
                    -(number(v[1]) / speed) * amplitude * wave,
                    amplitude,
                )
                &&& is_moved(point.pos_mm_y, y, number(v[0]) / speed * amplitude * wave, amplitude)
            }
            &&& number(length(unit, v)) <= 1 as real ==> exists|angle: Single|
                {
                    &&& near(
                        angle,
                        number(after.tremor_phase) * ((7 as real) / (10 as real)),
                        roundings(8, extent(number(after.tremor_phase))) + dust(),
                    )
                    &&& is_moved(
                        point.pos_mm_x,
                        x,
                        number(#[trigger] unit.cosine(angle)) * amplitude * wave,
                        amplitude,
                    )
                    &&& is_moved(
                        point.pos_mm_y,
                        y,
                        number(unit.sine(angle)) * amplitude * wave,
                        amplitude,
                    )
                }
            &&& point.pressure == after.pressure
            &&& point.timestamp_secs == after.session_time_secs
            &&& point.slant_azimuth_rad == after.slant_azimuth_rad
            &&& point.slant_altitude_rad == after.slant_altitude_rad
        }),
{
    constants_are_numbers();
    let zero = 0 as real;
    let after = step(unit, track, raw).0.state;
    let v = after.velocity_mm_s;
    let base = track.profile.tremor_base_amplitude_mm;
    let a = number(base) * number(after.fatigue);
    product_sign(number(base), number(after.fatigue));
    scale_bound(number(base), 1024 as real, number(after.fatigue));
    let amplitude = unit.times(base, after.fatigue);
    assert(rounded(amplitude, a));
    let wave = unit.sine(after.tremor_phase);
    lengths_are_close(unit, v, speed);
    let size = length(unit, v);
    choices_are_those_of_numbers(single(ONE), size);
    if number(size) > 1 as real {
        assert(speed * parts(9) >= roundings(8, speed) + grain());
        unit_quotient(unit, v[0], size, speed);
        unit_quotient(unit, v[1], size, speed);
        let back = unit.over(v[1], size);
        negation_is_that_of_numbers(back);
        let (x, y) = (-(number(v[1]) / speed), number(v[0]) / speed);
        offsets_are_close(unit, back.negated(), amplitude, wave, x, a);
        offsets_are_close(unit, unit.over(v[0], size), amplitude, wave, y, a);
        places_tremble(
            unit,
            after.pos_mm[0],
            unit.times(unit.times(back.negated(), amplitude), wave),
            x * a * number(wave),
            a,
        );
        places_tremble(
            unit,
            after.pos_mm[1],
            unit.times(unit.times(unit.over(v[0], size), amplitude), wave),
            y * a * number(wave),
            a,
        );
    }
    if number(size) <= 1 as real {
        let angle = unit.times(after.tremor_phase, single(SEVEN_TENTHS));
        let phase = number(after.tremor_phase);
        reorder(extent(phase), zero, zero);
        products_keep_parts(
            unit,
            after.tremor_phase,
            single(SEVEN_TENTHS),
            phase,
            (7 as real) / (10 as real),
            zero,
            zero,
            parts(2),
            zero,
            parts(8),
            dust(),
        );
        let (c, d) = (unit.cosine(angle), unit.sine(angle));
        offsets_are_close(unit, c, amplitude, wave, number(c), a);
        offsets_are_close(unit, d, amplitude, wave, number(d), a);
        places_tremble(
            unit,
            after.pos_mm[0],
            unit.times(unit.times(c, amplitude), wave),
            number(c) * a * number(wave),
            a,
        );
        places_tremble(
            unit,
            after.pos_mm[1],
            unit.times(unit.times(d, amplitude), wave),
            number(d) * a * number(wave),
            a,
        );
    }
}

/// How a pen on the paper leans. A pen that reports an altitude above a hundredth keeps
/// its azimuth and its altitude, which goes up to a quarter turn. A finger counts as held
/// at a sixth of a turn; its azimuth is eight tenths of the slant of the hand, and while it
/// moves faster than a millimetre a second up to a fifth, but no less than a tenth, of the
/// sideways part of its direction.
pub proof fn a_pen_leans_as_it_says<F: Fn(Op, u64, u64) -> u64>(
    unit: FloatUnit<F>,
    track: Track,
    raw: RawSample,
    speed: real,
)
    requires
        computes_closely(unit),
        knows_angles(unit),
        step(unit, track, raw).1 is Some,
        finite(raw.altitude),
        ({
            let v = step(unit, track, raw).0.state.velocity_mm_s;
            &&& is_ordinary(v[0])
            &&& is_ordinary(v[1])
            &&& speed >= 0 as real
            &&& speed * speed == number(v[0]) * number(v[0]) + number(v[1]) * number(v[1])
        }),
        finite(track.profile.natural_slant_deg),
        extent(number(track.profile.natural_slant_deg)) <= 1024 as real,
    ensures
        ({
            let after = step(unit, track, raw).0.state;
            let altitude = number(raw.altitude);
            let slant_deg = number(track.profile.natural_slant_deg);
            let home = slant_deg * ((314_159_265 as real) / (18_000_000_000 as real)) * ((8 as real)
                / (10 as real));
            let sideways = number(after.velocity_mm_s[0]) / speed;
            let azimuth = number(after.slant_azimuth_rad);
            let off = roundings(64, extent(slant_deg) + 1 as real);
            &&& altitude > number(single(HUNDREDTH)) ==> {
                &&& after.slant_azimuth_rad == raw.azimuth
                &&& altitude <= number(single(QUARTER_TURN)) ==> after.slant_altitude_rad
                    == raw.altitude
                &&& altitude > number(single(QUARTER_TURN)) ==> near(
                    after.slant_altitude_rad,
                    (157_079_633 as real) / (100_000_000 as real),
                    parts(4),
                )
            }
            &&& altitude <= number(single(HUNDREDTH)) ==> {
                &&& near(
                    after.slant_altitude_rad,
                    (104_719_755 as real) / (100_000_000 as real),
                    parts(4),
                )
                &&& number(length(unit, after.velocity_mm_s)) <= 1 as real ==> near(
                    after.slant_azimuth_rad,
                    home,
                    off,
                )
                &&& number(length(unit, after.velocity_mm_s)) > 1 as real && sideways >= 0 as real
                    ==> home + sideways / (10 as real) - off <= azimuth <= home + sideways / (
                5 as real) + off
                &&& number(length(unit, after.velocity_mm_s)) > 1 as real && sideways <= 0 as real
                    ==> home + sideways / (5 as real) - off <= azimuth <= home + sideways / (
                10 as real) + off
            }
        }),
{
    constants_are_numbers();
    let zero = 0 as real;
    let after = step(unit, track, raw).0.state;
    let v = after.velocity_mm_s;
    choices_are_those_of_numbers(single(HUNDREDTH), raw.altitude);
    choices_are_those_of_numbers(raw.altitude, single(ZERO));
    choices_are_those_of_numbers(single(QUARTER_TURN), raw.altitude);
    if number(raw.altitude) <= number(single(HUNDREDTH)) {
        let deg = track.profile.natural_slant_deg;
        let d = number(deg);
        let rad = unit.in_radians(deg);
        let r = d * ((314_159_265 as real) / (18_000_000_000 as real));
        assert(near(
            rad,
            d * (314_159_265 as real) / (18_000_000_000 as real),
            roundings(4, extent(d)) + dust(),
        ));
        let e = roundings(4, extent(d)) + dust();
        assert(near(rad, r, e));
        scale_bound(extent((8 as real) / (10 as real)), 1 as real, e);
        products_stay_near(
            unit,
            rad,
            single(EIGHT_TENTHS),
            r,
            (8 as real) / (10 as real),
            e,
            parts(1),
        );
        let home = unit.times(rad, single(EIGHT_TENTHS));
        assert(near(home, r * ((8 as real) / (10 as real)), roundings(8, extent(d)) + specks(4)));
        lengths_are_close(unit, v, speed);
        let size = length(unit, v);
        choices_are_those_of_numbers(single(ONE), size);
        let fast = single(ONE).precedes(size);
        let tangent = unit.over(v[0], size);
        let lean = if fast {
            unit.arctangent(tangent)
        } else {
            single(ZERO)
        };
        if number(size) > 1 as real {
            assert(speed * parts(9) >= roundings(8, speed) + grain());
            unit_quotient(unit, v[0], size, speed);
        }
        let l = number(lean);
        assert(extent(l) <= 2 as real);
        products_stay_near(
            unit,
            lean,
            single(TWO_TENTHS),
            l,
            (2 as real) / (10 as real),
            zero,
            parts(1),
        );
        let part = unit.times(lean, single(TWO_TENTHS));
        assert(near(part, l * ((2 as real) / (10 as real)), parts(4)));
        sums_stay_near(
            unit,
            home,
            part,
            r * ((8 as real) / (10 as real)),
            l * ((2 as real) / (10 as real)),
            roundings(8, extent(d)) + specks(4),
            parts(4),
        );
    }
}

/// The hand of an unknown writer in numbers: a tremor of 9 hertz and 0.08 millimetres that
/// grows by 0.15 a minute up to three times, a slant of 12 degrees to the left, ink of 2.5
/// to the unit of pressure and 0.3 to that of speed, contact from 0.05 on, smoothed over
/// 16 milliseconds.
pub proof fn an_unknown_hand_in_numbers()
    ensures
        ({
            let hand = HandProfile::standard();
            &&& number(hand.tremor_freq_hz) == 9 as real
            &&& near(hand.tremor_base_amplitude_mm, (8 as real) / (100 as real), ulp())
            &&& near(hand.fatigue_per_minute, (15 as real) / (100 as real), ulp())
            &&& number(hand.max_fatigue) == 3 as real
            &&& number(hand.natural_slant_deg) == -(12 as real)
            &&& number(hand.pressure_sensitivity) == (5 as real) / (2 as real)
            &&& near(hand.pressure_threshold, (5 as real) / (100 as real), ulp())
            &&& number(hand.pressure_smooth_ms) == 16 as real
            &&& near(hand.velocity_width_scale, (3 as real) / (10 as real), ulp())
        }),
{
    constants_are_numbers();
    lemma2_to64();
    pattern_stands_for(
        single(0x4110_0000),
        0x90_0000,
        0x10_0000,
        (0x90_0000 as real) / (0x10_0000 as real),
    );
    pattern_stands_for(
        single(0x3DA3_D70A),
        0xA3_D70A,
        0x800_0000,
        (0xA3_D70A as real) / (0x800_0000 as real),
    );
    pattern_stands_for(
        single(0x3E19_999A),
        0x99_999A,
        0x400_0000,
        (0x99_999A as real) / (0x400_0000 as real),
    );
    pattern_stands_for(
        single(0x4040_0000),
        0xC0_0000,
        0x40_0000,
        (0xC0_0000 as real) / (0x40_0000 as real),
    );
    pattern_stands_for(
        single(0x4140_0000),
        0xC0_0000,
        0x10_0000,
        (0xC0_0000 as real) / (0x10_0000 as real),
    );
    negation_is_that_of_numbers(single(0x4140_0000));
    assert(single(0x4140_0000).negated() == single(0xC140_0000));
    pattern_stands_for(
        single(0x3D4C_CCCD),
        0xCC_CCCD,
        0x1000_0000,
        (0xCC_CCCD as real) / (0x1000_0000 as real),
    );
    pattern_stands_for(
        single(0x4180_0000),
        0x80_0000,
        0x8_0000,
        (0x80_0000 as real) / (0x8_0000 as real),
    );
}

/// The angles and rates of the hands that are known: -15 degrees for a right hand in Latin
/// script, 20 for a left one with a tremor of 0.1 millimetres, -5 for Myanmar, with 8.5
/// hertz and ink of 3.2 to the unit of pressure.
pub proof fn known_hands_in_numbers()
    ensures
        number(single(0xC170_0000)) == -(15 as real),
        number(single(0x41A0_0000)) == 20 as real,
        near(single(TENTH), (1 as real) / (10 as real), ulp()),
        number(single(0xC0A0_0000)) == -(5 as real),
        number(single(0x4108_0000)) == (17 as real) / (2 as real),
        near(single(0x404C_CCCD), (32 as real) / (10 as real), parts(4)),
{
    constants_are_numbers();
    lemma2_to64();
    pattern_stands_for(
        single(0x4170_0000),
        0xF0_0000,
        0x10_0000,
        (0xF0_0000 as real) / (0x10_0000 as real),
    );
    negation_is_that_of_numbers(single(0x4170_0000));
    assert(single(0x4170_0000).negated() == single(0xC170_0000));
    pattern_stands_for(
        single(0x40A0_0000),
        0xA0_0000,
        0x20_0000,
        (0xA0_0000 as real) / (0x20_0000 as real),
    );
    negation_is_that_of_numbers(single(0x40A0_0000));
    assert(single(0x40A0_0000).negated() == single(0xC0A0_0000));
    pattern_stands_for(
        single(0x404C_CCCD),
        0xCC_CCCD,
        0x40_0000,
        (0xCC_CCCD as real) / (0x40_0000 as real),
    );
    pattern_stands_for(
        single(0x4108_0000),
        0x88_0000,
        0x10_0000,
        (0x88_0000 as real) / (0x10_0000 as real),
    );
    pattern_stands_for(
        single(0x41A0_0000),
        0xA0_0000,
        0x8_0000,
        (0xA0_0000 as real) / (0x8_0000 as real),
    );
}

/// A pen at rest: at the origin, without speed, pressure or fatigue, up, and held at half
/// a right angle.
pub proof fn a_pen_at_rest_in_numbers(profile: HandProfile, dpi_mm: Single, now: u64)
    ensures
        ({
            let pen = fresh(profile, dpi_mm, now);
            &&& pen.profile == profile
            &&& pen.dpi_mm == dpi_mm
            &&& pen.session_start == now
            &&& pen.stroke_start == now
            &&& number(pen.state.pos_mm[0]) == 0 as real
            &&& number(pen.state.pos_mm[1]) == 0 as real
            &&& number(pen.state.velocity_mm_s[0]) == 0 as real
            &&& number(pen.state.velocity_mm_s[1]) == 0 as real
            &&& number(pen.state.pressure) == 0 as real
            &&& number(pen.state.prev_raw_pressure) == 0 as real
            &&& number(pen.state.fatigue) == 1 as real
            &&& number(pen.state.session_time_secs) == 0 as real
            &&& number(pen.state.stroke_time_secs) == 0 as real
            &&& number(pen.state.tremor_phase) == 0 as real
            &&& number(pen.state.slant_azimuth_rad) == 0 as real
            &&& near(
                pen.state.slant_altitude_rad,
                (78_539_816 as real) / (100_000_000 as real),
                parts(4),
            )
            &&& pen.state.is_down == 0
        }),
{
    constants_are_numbers();
}

/// A pen that resumes counts its session and its stroke from now, and keeps its profile,
/// its screen, its place, its pressure, its slant, its fatigue and its tremor.
pub proof fn a_pen_resumes_where_it_was<F: Fn(Op, u64, u64) -> u64>(
    unit: FloatUnit<F>,
    track: Track,
    now: u64,
    raw: RawSample,
)
    requires
        computes_closely(unit),
        keeps_time_closely(unit),
        raw.timestamp >= now,
    ensures
        ({
            let pen = resumed(track, now);
            let session = (raw.timestamp - now) as real / (1_000_000_000 as real);
            &&& near(
                step(unit, pen, raw).0.state.session_time_secs,
                session,
                roundings(4, session),
            )
            &&& number(pen.state.session_time_secs) == 0 as real
            &&& number(pen.state.stroke_time_secs) == 0 as real
            &&& pen.stroke_start == now
            &&& pen.profile == track.profile
            &&& pen.dpi_mm == track.dpi_mm
            &&& pen.state.pos_mm == track.state.pos_mm
            &&& pen.state.velocity_mm_s == track.state.velocity_mm_s
            &&& pen.state.pressure == track.state.pressure
            &&& pen.state.prev_raw_pressure == track.state.prev_raw_pressure
            &&& pen.state.slant_azimuth_rad == track.state.slant_azimuth_rad
            &&& pen.state.slant_altitude_rad == track.state.slant_altitude_rad
            &&& pen.state.fatigue == track.state.fatigue
            &&& pen.state.tremor_phase == track.state.tremor_phase
            &&& pen.state.is_down == track.state.is_down
        }),
{
    constants_are_numbers();
    clocks_go_on(unit, resumed(track, now), raw);
}

} // verus!
