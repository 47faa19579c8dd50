//! Singles and doubles as real numbers, and how close rounded results come to exact
//! ones.
//!
//! No function of the library asks for closeness. The laws that say what a formula
//! means in exact arithmetic name it.

use crate::constants::{
    BYTE_MAX, EIGHTH_TURN, EIGHT_TENTHS, FULL_TURN, HALF, HUNDREDTH, MILLIONTH, ONE, QUARTER_TURN,
    SEVEN_TENTHS, SIXTH_TURN, SIXTY, TENTH, TEN_THOUSANDTH, THOUSAND, THREE_TENTHS, TWO,
    TWO_AND_A_HALF, TWO_TENTHS, WIDE_HALF, WIDE_ONE, WIDE_TENTH, WIDE_THREE, WIDE_TWO, WIDE_ZERO,
    ZERO,
};
use crate::number::{double, magnitude_of_zero, single, Double, Single};
use crate::rounding::{finite, finite_wide};
use crate::unit::{FloatUnit, Op};
use vstd::arithmetic::div_mod::*;
use vstd::arithmetic::power2::*;
use vstd::prelude::*;

verus! {

/// The real number that a single stands for.
pub open spec fn number(a: Single) -> real {
    (a.value() as real) / (pow2(149) as real)
}

/// The real number that a double stands for.
pub open spec fn number_wide(a: Double) -> real {
    (a.value() as real) / (pow2(1074) as real)
}

/// A real number without its sign.
pub open spec fn extent(x: real) -> real {
    if x < 0 as real {
        -x
    } else {
        x
    }
}

/// The larger of two real numbers.
pub open spec fn greater(x: real, y: real) -> real {
    if x < y {
        y
    } else {
        x
    }
}

/// The smaller of two real numbers.
pub open spec fn lesser(x: real, y: real) -> real {
    if y < x {
        y
    } else {
        x
    }
}

/// The largest relative error of one rounding to a single: a part in 2^24.
#[verifier::inline]
pub open spec fn ulp() -> real {
    (1 as real) / (0x100_0000 as real)
}

/// An error that is smaller than any that matters: 2^-120.
#[verifier::inline]
pub open spec fn dust() -> real {
    (1 as real) / (0x100_0000_0000_0000_0000_0000_0000_0000 as real)
}

/// So many of the smallest errors that matter.
#[verifier::inline]
pub open spec fn specks(count: int) -> real {
    (count as real) / (0x100_0000_0000_0000_0000_0000_0000_0000 as real)
}

/// The largest relative error of one rounding to a double: a part in 2^53.
#[verifier::inline]
pub open spec fn ulp_wide() -> real {
    (1 as real) / (0x20_0000_0000_0000 as real)
}

/// So many roundings of one to a single.
#[verifier::inline]
pub open spec fn parts(count: int) -> real {
    (count as real) / (0x100_0000 as real)
}

/// So many roundings of a number to a single.
#[verifier::inline]
pub open spec fn roundings(count: int, x: real) -> real {
    (count as real) * (x * ulp())
}

/// So many roundings of a number to a double.
#[verifier::inline]
pub open spec fn wide_roundings(count: int, x: real) -> real {
    (count as real) * (x * ulp_wide())
}

/// Numbers up to 2^120 are in the reach of singles, with room to spare.
pub open spec fn in_reach(x: real) -> bool {
    extent(x) <= 0x100_0000_0000_0000_0000_0000_0000_0000 as real
}

/// Whether a single is finite and within a distance of a real number.
pub open spec fn near(r: Single, x: real, by: real) -> bool {
    finite(r) && extent(number(r) - x) <= by
}

/// Whether a double is finite and within a distance of a real number.
pub open spec fn near_wide(r: Double, x: real, by: real) -> bool {
    finite_wide(r) && extent(number_wide(r) - x) <= by
}

/// Whether a single is a real number rounded once, to the same side of zero.
pub open spec fn rounded(r: Single, x: real) -> bool {
    &&& near(r, x, extent(x) * ulp() + dust())
    &&& x >= 0 as real ==> number(r) >= 0 as real
    &&& x <= 0 as real ==> number(r) <= 0 as real
}

/// Whether a double is a real number rounded once, to the same side of zero.
pub open spec fn rounded_wide(r: Double, x: real) -> bool {
    &&& near_wide(r, x, extent(x) * ulp_wide() + dust())
    &&& x >= 0 as real ==> number_wide(r) >= 0 as real
    &&& x <= 0 as real ==> number_wide(r) <= 0 as real
}

/// Whether a unit computes closely in single precision: as long as the exact result is
/// in reach, a sum, difference, product or quotient is the exact one rounded once, and
/// the square of a square root comes back up to three roundings.
pub open spec fn computes_closely<F: Fn(Op, u64, u64) -> u64>(unit: FloatUnit<F>) -> bool {
    &&& forall|a: Single, b: Single|
        finite(a) && finite(b) && in_reach(number(a) + number(b)) ==> rounded(
            #[trigger] unit.plus(a, b),
            number(a) + number(b),
        )
    &&& forall|a: Single, b: Single|
        finite(a) && finite(b) && in_reach(number(a) - number(b)) ==> rounded(
            #[trigger] unit.minus(a, b),
            number(a) - number(b),
        )
    &&& forall|a: Single, b: Single|
        finite(a) && finite(b) && in_reach(number(a) * number(b)) ==> rounded(
            #[trigger] unit.times(a, b),
            number(a) * number(b),
        )
    &&& forall|a: Single, b: Single|
        finite(a) && finite(b) && number(b) != 0 as real && in_reach(number(a) / number(b))
            ==> rounded(#[trigger] unit.over(a, b), number(a) / number(b))
    &&& forall|a: Single|
        finite(a) && number(a) >= 0 as real ==> {
            let r = #[trigger] unit.root(a);
            &&& finite(r)
            &&& number(r) >= 0 as real
            &&& extent(number(r) * number(r) - number(a)) <= roundings(3, number(a))
        }
}

/// Whether a unit computes closely in double precision, takes whole numbers and singles
/// over as they are, and rounds once where it makes a single of a double.
pub open spec fn computes_closely_wide<F: Fn(Op, u64, u64) -> u64>(unit: FloatUnit<F>) -> bool {
    &&& forall|a: Double, b: Double|
        finite_wide(a) && finite_wide(b) && in_reach(number_wide(a) + number_wide(b))
            ==> rounded_wide(#[trigger] unit.plus_wide(a, b), number_wide(a) + number_wide(b))
    &&& forall|a: Double, b: Double|
        finite_wide(a) && finite_wide(b) && in_reach(number_wide(a) - number_wide(b))
            ==> rounded_wide(#[trigger] unit.minus_wide(a, b), number_wide(a) - number_wide(b))
    &&& forall|a: Double, b: Double|
        finite_wide(a) && finite_wide(b) && in_reach(number_wide(a) * number_wide(b))
            ==> rounded_wide(#[trigger] unit.times_wide(a, b), number_wide(a) * number_wide(b))
    &&& forall|a: Double, b: Double|
        finite_wide(a) && finite_wide(b) && number_wide(b) != 0 as real && in_reach(
            number_wide(a) / number_wide(b),
        ) ==> rounded_wide(#[trigger] unit.over_wide(a, b), number_wide(a) / number_wide(b))
    &&& forall|n: u32| near_wide(#[trigger] unit.counted(n), n as real, 0 as real)
    &&& forall|n: i32| near_wide(#[trigger] unit.as_double(n), n as real, 0 as real)
    &&& forall|a: Single|
        finite(a) ==> near_wide(#[trigger] unit.widened(a), number(a), 0 as real)
    &&& forall|a: Double|
        finite_wide(a) && in_reach(number_wide(a)) ==> rounded(
            #[trigger] unit.narrowed(a),
            number_wide(a),
        )
}

/// Whether a unit keeps time closely: seconds are nanoseconds over a thousand million up
/// to four roundings, and nanoseconds are seconds times that up to one.
pub open spec fn keeps_time_closely<F: Fn(Op, u64, u64) -> u64>(unit: FloatUnit<F>) -> bool {
    &&& forall|nanos: u64|
        near(
            #[trigger] unit.in_seconds(nanos),
            (nanos as real) / (1_000_000_000 as real),
            roundings(4, (nanos as real) / (1_000_000_000 as real)),
        )
    &&& forall|seconds: Single|
        finite(seconds) && 0 as real <= number(seconds) <= 1_000_000_000 as real ==> extent(
            (#[trigger] unit.in_nanos(seconds)) as real - number(seconds)
                * 1_000_000_000 as real,
        ) <= 1 as real
}

/// Whether a unit knows its angles: sines and cosines lie from -1 to 1 and their squares
/// add up to one, an arctangent has the sign of its tangent, stays below two, is no larger
/// than the tangent and at least half of one up to two, and degrees become radians.
pub open spec fn knows_angles<F: Fn(Op, u64, u64) -> u64>(unit: FloatUnit<F>) -> bool {
    &&& forall|a: Single| finite(a) ==> near(#[trigger] unit.sine(a), 0 as real, 1 as real)
    &&& forall|a: Single| finite(a) ==> near(#[trigger] unit.cosine(a), 0 as real, 1 as real)
    &&& forall|a: Single|
        #![trigger unit.sine(a), unit.cosine(a)]
        finite(a) ==> extent(
            number(unit.sine(a)) * number(unit.sine(a)) + number(unit.cosine(a)) * number(
                unit.cosine(a),
            ) - 1 as real,
        ) <= parts(16)
    &&& forall|a: Single|
        finite(a) ==> {
            let r = number(#[trigger] unit.arctangent(a));
            &&& finite(unit.arctangent(a))
            &&& number(a) >= 0 as real ==> 0 as real <= r <= number(a) + roundings(4, number(a))
            &&& number(a) <= 0 as real ==> number(a) + roundings(4, number(a)) <= r <= 0 as real
            &&& extent(r) <= 2 as real
            &&& extent(number(a)) <= 2 as real ==> extent(r) >= extent(number(a)) / (2 as real)
        }
    &&& forall|a: Single|
        finite(a) && in_reach(number(a)) ==> near(
            #[trigger] unit.in_radians(a),
            number(a) * (314_159_265 as real) / (18_000_000_000 as real),
            roundings(4, extent(number(a))) + dust(),
        )
}

/// A single as its significand over a power of two, from the pattern.
pub proof fn number_of_pattern(a: Single)
    requires
        a.bits < 0x8000_0000,
        1 <= a.bits as int / 0x80_0000 <= 150,
    ensures
        ({
            let exponent = a.bits as int / 0x80_0000;
            let significand = 0x80_0000 + a.bits as int % 0x80_0000;
            &&& number(a) * (pow2((150 - exponent) as nat) as real) == significand as real
            &&& finite(a)
            &&& number(a) > 0 as real
        }),
{
    lemma2_to64();
    let exponent = a.bits as int / 0x80_0000;
    let significand = 0x80_0000 + a.bits as int % 0x80_0000;
    let step = pow2((exponent - 1) as nat) as int;
    let rest = pow2((150 - exponent) as nat) as int;
    lemma_pow2_pos((exponent - 1) as nat);
    lemma_pow2_pos((150 - exponent) as nat);
    lemma_pow2_adds((exponent - 1) as nat, (150 - exponent) as nat);
    assert(a.value() == significand * step);
    lemma_pow2_pos(149);
    let (v, m, s, t) = (a.value() as real, significand as real, step as real, rest as real);
    assert(v == m * s) by {
        product_as_real(significand, step);
    }
    assert(pow2(149) as real == s * t) by {
        product_as_real(step, rest);
    }
    assert(v / (s * t) * t == m) by (nonlinear_arith)
        requires
            v == m * s,
            s > 0 as real,
            t > 0 as real,
    ;
    assert(number(a) > 0 as real) by (nonlinear_arith)
        requires
            number(a) * t == m,
            m > 0 as real,
            t > 0 as real,
    ;
}

/// A double as its significand over a power of two, from the pattern.
pub proof fn number_of_wide_pattern(a: Double)
    requires
        a.bits < 0x8000_0000_0000_0000,
        1 <= a.bits as int / 0x10_0000_0000_0000 <= 1075,
    ensures
        ({
            let exponent = a.bits as int / 0x10_0000_0000_0000;
            let significand = 0x10_0000_0000_0000 + a.bits as int % 0x10_0000_0000_0000;
            &&& number_wide(a) * (pow2((1075 - exponent) as nat) as real) == significand as real
            &&& finite_wide(a)
            &&& number_wide(a) > 0 as real
        }),
{
    lemma2_to64();
    lemma2_to64_rest();
    let exponent = a.bits as int / 0x10_0000_0000_0000;
    let significand = 0x10_0000_0000_0000 + a.bits as int % 0x10_0000_0000_0000;
    let step = pow2((exponent - 1) as nat) as int;
    let rest = pow2((1075 - exponent) as nat) as int;
    lemma_pow2_pos((exponent - 1) as nat);
    lemma_pow2_pos((1075 - exponent) as nat);
    lemma_pow2_adds((exponent - 1) as nat, (1075 - exponent) as nat);
    assert(a.value() == significand * step);
    lemma_pow2_pos(1074);
    let (v, m, s, t) = (a.value() as real, significand as real, step as real, rest as real);
    assert(v == m * s) by {
        product_as_real(significand, step);
    }
    assert(pow2(1074) as real == s * t) by {
        product_as_real(step, rest);
    }
    assert(v / (s * t) * t == m) by (nonlinear_arith)
        requires
            v == m * s,
            s > 0 as real,
            t > 0 as real,
    ;
    assert(number_wide(a) > 0 as real) by (nonlinear_arith)
        requires
            number_wide(a) * t == m,
            m > 0 as real,
            t > 0 as real,
    ;
}

/// The product of whole numbers is the product of the real numbers that they are.
proof fn product_as_real(a: int, b: int)
    ensures
        (a * b) as real == (a as real) * (b as real),
{
    assert((a * b) as real == (a as real) * (b as real)) by (nonlinear_arith);
}

/// A bound that leaves room for every error: 2^100.
#[verifier::inline]
pub open spec fn roomy() -> real {
    0x10_0000_0000_0000_0000_0000_0000 as real
}

/// The sum of two numbers that are known up to an error.
pub proof fn sums_stay_near<F: Fn(Op, u64, u64) -> u64>(
    unit: FloatUnit<F>,
    a: Single,
    b: Single,
    x: real,
    y: real,
    e: real,
    f: real,
)
    requires
        computes_closely(unit),
        near(a, x, e),
        near(b, y, f),
        extent(x) + extent(y) + e + f <= roomy(),
    ensures
        near(unit.plus(a, b), x + y, e + f + (extent(x + y) + e + f) * ulp() + dust()),
{
    let exact = number(a) + number(b);
    assert(rounded(unit.plus(a, b), exact));
    assert(extent(exact) <= extent(x + y) + e + f);
    scale_bound(extent(exact), extent(x + y) + e + f, ulp());
}

/// The difference of two numbers that are known up to an error.
pub proof fn differences_stay_near<F: Fn(Op, u64, u64) -> u64>(
    unit: FloatUnit<F>,
    a: Single,
    b: Single,
    x: real,
    y: real,
    e: real,
    f: real,
)
    requires
        computes_closely(unit),
        near(a, x, e),
        near(b, y, f),
        extent(x) + extent(y) + e + f <= roomy(),
    ensures
        near(unit.minus(a, b), x - y, e + f + (extent(x - y) + e + f) * ulp() + dust()),
{
    let exact = number(a) - number(b);
    assert(rounded(unit.minus(a, b), exact));
    assert(extent(exact) <= extent(x - y) + e + f);
    scale_bound(extent(exact), extent(x - y) + e + f, ulp());
}

/// How far a product is off whose factors are known up to an error.
pub open spec fn spread(x: real, y: real, e: real, f: real) -> real {
    extent(x) * f + extent(y) * e + e * f
}

/// The product of two numbers that are known up to an error.
pub proof fn products_stay_near<F: Fn(Op, u64, u64) -> u64>(
    unit: FloatUnit<F>,
    a: Single,
    b: Single,
    x: real,
    y: real,
    e: real,
    f: real,
)
    requires
        computes_closely(unit),
        near(a, x, e),
        near(b, y, f),
        extent(x * y) + spread(x, y, e, f) <= roomy(),
    ensures
        near(
            unit.times(a, b),
            x * y,
            spread(x, y, e, f) + (extent(x * y) + spread(x, y, e, f)) * ulp() + dust(),
        ),
{
    let exact = number(a) * number(b);
    spread_bounds(number(a), number(b), x, y, e, f);
    assert(rounded(unit.times(a, b), exact));
    scale_bound(extent(exact), extent(x * y) + spread(x, y, e, f), ulp());
}

/// The quotient of a number that is known up to an error by a positive one.
pub proof fn quotients_stay_near<F: Fn(Op, u64, u64) -> u64>(
    unit: FloatUnit<F>,
    a: Single,
    b: Single,
    x: real,
    e: real,
)
    requires
        computes_closely(unit),
        near(a, x, e),
        finite(b),
        number(b) > 0 as real,
        extent(x / number(b)) + e / number(b) <= roomy(),
    ensures
        near(
            unit.over(a, b),
            x / number(b),
            e / number(b) + (extent(x / number(b)) + e / number(b)) * ulp() + dust(),
        ),
{
    let d = number(b);
    let exact = number(a) / d;
    quotient_bounds(number(a), x, d, e);
    assert(rounded(unit.over(a, b), exact));
    scale_bound(extent(exact), extent(x / d) + e / d, ulp());
}

/// How far a quotient is off whose parts are known up to an error, the divisor by less
/// than half.
pub open spec fn quotient_spread(x: real, y: real, e: real, f: real) -> real {
    2 as real * (e + extent(x / y) * f) / y
}

/// The quotient of two numbers that are known up to an error.
pub proof fn ratios_stay_near<F: Fn(Op, u64, u64) -> u64>(
    unit: FloatUnit<F>,
    a: Single,
    b: Single,
    x: real,
    y: real,
    e: real,
    f: real,
)
    requires
        computes_closely(unit),
        near(a, x, e),
        near(b, y, f),
        y > 0 as real,
        2 as real * f <= y,
        extent(x / y) + quotient_spread(x, y, e, f) <= roomy(),
    ensures
        near(
            unit.over(a, b),
            x / y,
            quotient_spread(x, y, e, f) + (extent(x / y) + quotient_spread(x, y, e, f)) * ulp()
                + dust(),
        ),
{
    let exact = number(a) / number(b);
    quotient_spread_bounds(number(a), number(b), x, y, e, f);
    assert(rounded(unit.over(a, b), exact));
    scale_bound(extent(exact), extent(x / y) + quotient_spread(x, y, e, f), ulp());
}

/// How far the quotient of two numbers is from that of two numbers near them.
pub proof fn quotient_spread_bounds(a: real, b: real, x: real, y: real, e: real, f: real)
    requires
        extent(a - x) <= e,
        extent(b - y) <= f,
        y > 0 as real,
        2 as real * f <= y,
    ensures
        b > 0 as real,
        extent(a / b - x / y) <= quotient_spread(x, y, e, f),
        extent(a / b) <= extent(x / y) + quotient_spread(x, y, e, f),
{
    let q = x / y;
    let r = a / b;
    assert(q * y == x) by (nonlinear_arith)
        requires
            q == x / y,
            y > 0 as real,
    ;
    assert(r * b == a) by (nonlinear_arith)
        requires
            r == a / b,
            b > 0 as real,
    ;
    let gap = r - q;
    // b (r - q) = (a - x) + q (y - b)
    let p = a - x;
    let s = q * (y - b);
    assert(gap * b == p + s) by (nonlinear_arith)
        requires
            gap == r - q,
            r * b == a,
            q * y == x,
            p == a - x,
            s == q * (y - b),
    ;
    assert(extent(s) <= extent(q) * f) by (nonlinear_arith)
        requires
            s == q * (y - b),
            extent(b - y) <= f,
    ;
    let bound = e + extent(q) * f;
    assert(extent(gap * b) <= bound);
    assert(extent(gap) * b <= bound) by (nonlinear_arith)
        requires
            extent(gap * b) <= bound,
            b > 0 as real,
    ;
    let t = extent(gap);
    assert(t * y <= 2 as real * bound) by (nonlinear_arith)
        requires
            t * b <= bound,
            t >= 0 as real,
            y <= 2 as real * b,
    ;
    let limit = 2 as real * bound / y;
    assert(t <= limit) by (nonlinear_arith)
        requires
            t * y <= 2 as real * bound,
            limit == 2 as real * bound / y,
            y > 0 as real,
    ;
}

/// The smaller and the larger of two finite singles, and which comes first, as numbers.
pub proof fn choices_are_those_of_numbers(a: Single, b: Single)
    requires
        finite(a),
        finite(b),
    ensures
        finite(a.smaller(b)),
        number(a.smaller(b)) == lesser(number(a), number(b)),
        finite(a.larger(b)),
        number(a.larger(b)) == greater(number(a), number(b)),
        a.precedes(b) <==> number(a) < number(b),
{
    order_is_that_of_numbers(a, b);
    order_is_that_of_numbers(b, a);
}

/// A factor goes to each term of a sum.
pub proof fn distribute(a: real, b: real, c: real)
    ensures
        a * (b + c) == a * b + a * c,
        (b + c) * a == b * a + c * a,
{
    assert(a * (b + c) == a * b + a * c) by (nonlinear_arith);
    assert((b + c) * a == b * a + c * a) by (nonlinear_arith);
}

/// Factors may be taken in any order.
pub proof fn reorder(a: real, b: real, c: real)
    ensures
        a * (b * c) == (a * b) * c,
        a * (b * c) == b * (a * c),
        a * b == b * a,
{
    assert(a * (b * c) == (a * b) * c) by (nonlinear_arith);
    assert(a * (b * c) == b * (a * c)) by (nonlinear_arith);
    assert(a * b == b * a) by (nonlinear_arith);
}

/// The product of what is not negative is not negative.
pub proof fn product_sign(a: real, b: real)
    requires
        a >= 0 as real,
        b >= 0 as real,
    ensures
        a * b >= 0 as real,
{
    assert(a * b >= 0 as real) by (nonlinear_arith)
        requires
            a >= 0 as real,
            b >= 0 as real,
    ;
}

/// A quotient times its divisor.
pub proof fn quotient_times_divisor(x: real, y: real)
    requires
        y > 0 as real,
    ensures
        x / y * y == x,
{
    assert(x / y * y == x) by (nonlinear_arith)
        requires
            y > 0 as real,
    ;
}

/// Numbers whose products with a positive number are ordered are ordered.
pub proof fn cancel(x: real, y: real, by: real)
    requires
        x * by <= y * by,
        by > 0 as real,
    ensures
        x <= y,
{
    assert(x <= y) by (nonlinear_arith)
        requires
            x * by <= y * by,
            by > 0 as real,
    ;
}

/// The size of a product is the product of the sizes.
pub proof fn extent_of_product(x: real, y: real)
    ensures
        extent(x * y) == extent(x) * extent(y),
{
    assert(extent(x * y) == extent(x) * extent(y)) by (nonlinear_arith);
}

/// A product whose factors are known up to a part of themselves and a little more.
pub proof fn products_keep_parts<F: Fn(Op, u64, u64) -> u64>(
    unit: FloatUnit<F>,
    a: Single,
    b: Single,
    x: real,
    y: real,
    r: real,
    g: real,
    s: real,
    h: real,
    t: real,
    k: real,
)
    requires
        computes_closely(unit),
        near(a, x, extent(x) * r + g),
        near(b, y, extent(y) * s + h),
        0 as real <= r <= parts(0x1000),
        0 as real <= s <= parts(0x1000),
        g >= 0 as real,
        h >= 0 as real,
        t >= r + s + (r + parts(2)),
        t >= r + s + (s + parts(2)),
        k >= 2 as real * (extent(x) * h) + 2 as real * (extent(y) * g) + 2 as real * (g * h)
            + dust(),
        2 as real * extent(x * y) + k <= roomy(),
    ensures
        near(unit.times(a, b), x * y, extent(x * y) * t + k),
{
    let (p, q) = (extent(x), extent(y));
    let (e, f) = (p * r + g, q * s + h);
    let w = extent(x * y);
    extent_of_product(x, y);
    let (ph, qg, gh) = (p * h, q * g, g * h);
    product_sign(p, h);
    product_sign(q, g);
    product_sign(g, h);
    // p f
    distribute(p, q * s, h);
    reorder(p, q, s);
    assert(p * f == w * s + ph);
    // q e
    distribute(q, p * r, g);
    reorder(q, p, r);
    reorder(p, q, r);
    assert(q * e == w * r + qg);
    // e f
    distribute(f, p * r, g);
    distribute(g, q * s, h);
    reorder(g, q, s);
    reorder(q, g, s);
    assert(g * f == qg * s + gh);
    distribute(p * r, q * s, h);
    reorder(p, r, h);
    reorder(r, p, h);
    assert((p * r) * h == ph * r);
    reorder(p * r, q, s);
    reorder(p, r, q);
    reorder(r, p, q);
    assert((p * r) * q == w * r);
    reorder(w, r, s);
    assert((p * r) * (q * s) == (w * r) * s);
    assert(e * f == (w * r) * s + ph * r + (qg * s + gh)) by {
        reorder(e, f, f);
    }
    product_sign(w, r);
    let small = parts(0x1000);
    scale_bound(s, small, w * r);
    reorder(s, w * r, w * r);
    reorder(small, w * r, w * r);
    scale_bound(r, small, ph);
    reorder(r, ph, ph);
    scale_bound(s, small, qg);
    reorder(s, qg, qg);
    let z = spread(x, y, e, f);
    assert(z <= w * s + w * r + (w * r) * small + ph + ph * small + qg + qg * small + gh);
    let m = ph + ph * small + qg + qg * small + gh;
    scale_bound(s, small, w);
    scale_bound(r, small, w);
    reorder(s, w, w);
    reorder(r, w, w);
    products_stay_near(unit, a, b, x, y, e, f);
    // w t
    let c = r + s + (r + parts(2));
    scale_bound(c, t, w);
    reorder(c, w, w);
    reorder(t, w, w);
    distribute(w, r + s, r + parts(2));
    distribute(w, r, s);
    distribute(w, r, parts(2));
}

/// A quotient by a positive number, both known up to a part of themselves, the dividend
/// up to a little more.
pub proof fn quotients_keep_parts<F: Fn(Op, u64, u64) -> u64>(
    unit: FloatUnit<F>,
    a: Single,
    b: Single,
    x: real,
    y: real,
    r: real,
    g: real,
    s: real,
    t: real,
    k: real,
)
    requires
        computes_closely(unit),
        near(a, x, extent(x) * r + g),
        near(b, y, y * s),
        y > 0 as real,
        0 as real <= r <= parts(0x1000),
        0 as real <= s <= parts(0x1000),
        g >= 0 as real,
        t >= 2 as real * r + 2 as real * s + parts(2),
        (k - dust()) * y >= 4 as real * g,
        2 as real * extent(x / y) + k <= roomy(),
    ensures
        near(unit.over(a, b), x / y, extent(x / y) * t + k),
{
    let q = x / y;
    let (e, f) = (extent(x) * r + g, y * s);
    let w = extent(q);
    quotient_times_divisor(x, y);
    extent_of_product(q, y);
    assert(w * y == extent(x));
    scale_bound(s, parts(0x1000), y);
    reorder(s, y, y);
    assert(2 as real * f <= y);
    let z = quotient_spread(x, y, e, f);
    let m = 2 as real * g / y;
    quotient_times_divisor(2 as real * (e + w * f), y);
    quotient_times_divisor(2 as real * g, y);
    // z y = 2 (w y r + g + w y s)
    reorder(w, y, s);
    reorder(w, y, r);
    reorder(y, w, r);
    reorder(y, w, s);
    assert(z * y == 2 as real * (y * (w * r)) + 2 as real * g + 2 as real * (y * (w * s)));
    let sum = 2 as real * (w * r) + 2 as real * (w * s) + m;
    distribute(y, 2 as real * (w * r) + 2 as real * (w * s), m);
    distribute(y, 2 as real * (w * r), 2 as real * (w * s));
    reorder(y, 2 as real, w * r);
    reorder(y, 2 as real, w * s);
    reorder(y, sum, sum);
    reorder(y, m, m);
    assert(sum * y == z * y);
    cancel(sum, z, y);
    cancel(z, sum, y);
    let rest = k - dust();
    reorder(2 as real, m, y);
    cancel(2 as real * m, rest, y);
    if m < 0 as real {
        assert(m * y < 0 as real) by (nonlinear_arith)
            requires
                m < 0 as real,
                y > 0 as real,
        ;
    }
    scale_bound(r, parts(0x1000), w);
    scale_bound(s, parts(0x1000), w);
    reorder(r, w, w);
    reorder(s, w, w);
    ratios_stay_near(unit, a, b, x, y, e, f);
    let c = 2 as real * r + 2 as real * s + parts(2);
    scale_bound(c, t, w);
    reorder(c, w, w);
    reorder(t, w, w);
    distribute(w, 2 as real * r + 2 as real * s, parts(2));
    distribute(w, 2 as real * r, 2 as real * s);
    reorder(w, 2 as real, r);
    reorder(w, 2 as real, s);
}

/// The sum of two doubles that are known up to an error.
pub proof fn wide_sums_stay_near<F: Fn(Op, u64, u64) -> u64>(
    unit: FloatUnit<F>,
    a: Double,
    b: Double,
    x: real,
    y: real,
    e: real,
    f: real,
)
    requires
        computes_closely_wide(unit),
        near_wide(a, x, e),
        near_wide(b, y, f),
        extent(x) + extent(y) + e + f <= roomy(),
    ensures
        near_wide(
            unit.plus_wide(a, b),
            x + y,
            e + f + (extent(x + y) + e + f) * ulp_wide() + dust(),
        ),
{
    let exact = number_wide(a) + number_wide(b);
    assert(rounded_wide(unit.plus_wide(a, b), exact));
    assert(extent(exact) <= extent(x + y) + e + f);
    scale_bound(extent(exact), extent(x + y) + e + f, ulp_wide());
}

/// The product of two doubles that are known up to an error.
pub proof fn wide_products_stay_near<F: Fn(Op, u64, u64) -> u64>(
    unit: FloatUnit<F>,
    a: Double,
    b: Double,
    x: real,
    y: real,
    e: real,
    f: real,
)
    requires
        computes_closely_wide(unit),
        near_wide(a, x, e),
        near_wide(b, y, f),
        extent(x * y) + spread(x, y, e, f) <= roomy(),
    ensures
        near_wide(
            unit.times_wide(a, b),
            x * y,
            spread(x, y, e, f) + (extent(x * y) + spread(x, y, e, f)) * ulp_wide() + dust(),
        ),
{
    let exact = number_wide(a) * number_wide(b);
    spread_bounds(number_wide(a), number_wide(b), x, y, e, f);
    assert(rounded_wide(unit.times_wide(a, b), exact));
    scale_bound(extent(exact), extent(x * y) + spread(x, y, e, f), ulp_wide());
}

/// A larger number times one that is not negative is no smaller.
pub proof fn scale_bound(x: real, y: real, by: real)
    requires
        x <= y,
        by >= 0 as real,
    ensures
        x * by <= y * by,
{
    assert(x * by <= y * by) by (nonlinear_arith)
        requires
            x <= y,
            by >= 0 as real,
    ;
}

/// How far the product of two numbers is from that of two numbers near them.
pub proof fn spread_bounds(a: real, b: real, x: real, y: real, e: real, f: real)
    requires
        extent(a - x) <= e,
        extent(b - y) <= f,
    ensures
        extent(a * b - x * y) <= spread(x, y, e, f),
        extent(a * b) <= extent(x * y) + spread(x, y, e, f),
{
    let p = a - x;
    let q = b - y;
    assert(a * b - x * y == x * q + y * p + p * q) by (nonlinear_arith)
        requires
            p == a - x,
            q == b - y,
    ;
    assert(extent(x * q) <= extent(x) * f) by (nonlinear_arith)
        requires
            extent(q) <= f,
    ;
    assert(extent(y * p) <= extent(y) * e) by (nonlinear_arith)
        requires
            extent(p) <= e,
    ;
    assert(extent(p * q) <= e * f) by (nonlinear_arith)
        requires
            extent(p) <= e,
            extent(q) <= f,
    ;
}

/// How far a quotient is from that of a number near by.
pub proof fn quotient_bounds(a: real, x: real, d: real, e: real)
    requires
        extent(a - x) <= e,
        d > 0 as real,
    ensures
        extent(a / d - x / d) <= e / d,
        extent(a / d) <= extent(x / d) + e / d,
{
    let p = a - x;
    assert(a / d - x / d == p / d) by (nonlinear_arith)
        requires
            p == a - x,
            d > 0 as real,
    ;
    assert(extent(p / d) <= e / d) by (nonlinear_arith)
        requires
            extent(p) <= e,
            d > 0 as real,
    ;
}

/// Finite singles are ordered as the numbers that they stand for.
pub proof fn order_is_that_of_numbers(a: Single, b: Single)
    ensures
        a.value() < b.value() <==> number(a) < number(b),
        a.value() == b.value() <==> number(a) == number(b),
        number(a) == 0 as real <==> a.value() == 0,
        number(a) < 0 as real <==> a.value() < 0,
{
    lemma_pow2_pos(149);
    let u = pow2(149) as real;
    let (x, y) = (a.value() as real, b.value() as real);
    assert(x < y <==> x / u < y / u) by (nonlinear_arith)
        requires
            u > 0 as real,
    ;
    assert(x == y <==> x / u == y / u) by (nonlinear_arith)
        requires
            u > 0 as real,
    ;
    assert(0 as real / u == 0 as real) by (nonlinear_arith)
        requires
            u > 0 as real,
    ;
    assert(x < 0 as real <==> x / u < 0 as real) by (nonlinear_arith)
        requires
            u > 0 as real,
    ;
    assert(x == 0 as real <==> x / u == 0 as real) by (nonlinear_arith)
        requires
            u > 0 as real,
    ;
}

/// Doubles are ordered as the numbers that they stand for.
pub proof fn wide_order_is_that_of_numbers(a: Double, b: Double)
    ensures
        a.value() < b.value() <==> number_wide(a) < number_wide(b),
        a.value() == b.value() <==> number_wide(a) == number_wide(b),
        number_wide(a) == 0 as real <==> a.value() == 0,
        number_wide(a) < 0 as real <==> a.value() < 0,
{
    lemma_pow2_pos(1074);
    let u = pow2(1074) as real;
    let (x, y) = (a.value() as real, b.value() as real);
    assert(x < y <==> x / u < y / u) by (nonlinear_arith)
        requires
            u > 0 as real,
    ;
    assert(x == y <==> x / u == y / u) by (nonlinear_arith)
        requires
            u > 0 as real,
    ;
    assert(x < 0 as real <==> x / u < 0 as real) by (nonlinear_arith)
        requires
            u > 0 as real,
    ;
    assert(x == 0 as real <==> x / u == 0 as real) by (nonlinear_arith)
        requires
            u > 0 as real,
    ;
}

/// The number with the other sign is the other way from zero.
pub proof fn negation_is_that_of_numbers(a: Single)
    ensures
        number(a.negated()) == -number(a),
        finite(a) ==> finite(a.negated()),
{
    lemma_pow2_pos(149);
    let u = pow2(149) as real;
    let x = a.value() as real;
    assert(a.negated().value() == -a.value());
    assert((-x) / u == -(x / u)) by (nonlinear_arith)
        requires
            u > 0 as real,
    ;
}

/// A double with the other sign is the other way from zero.
pub proof fn wide_negation_is_that_of_numbers(a: Double)
    ensures
        number_wide(a.negated()) == -number_wide(a),
        finite_wide(a) ==> finite_wide(a.negated()),
{
    lemma_pow2_pos(1074);
    let u = pow2(1074) as real;
    let x = a.value() as real;
    assert(a.negated().value() == -a.value());
    assert((-x) / u == -(x / u)) by (nonlinear_arith)
        requires
            u > 0 as real,
    ;
}

/// The number of a pattern whose significand and exponent are known.
pub proof fn pattern_stands_for(a: Single, significand: int, power: int, x: real)
    requires
        a.bits < 0x8000_0000,
        1 <= a.bits as int / 0x80_0000 <= 150,
        significand == 0x80_0000 + a.bits as int % 0x80_0000,
        power == pow2((150 - a.bits as int / 0x80_0000) as nat),
        x * (power as real) == significand as real,
    ensures
        number(a) == x,
        finite(a),
{
    number_of_pattern(a);
    lemma_pow2_pos((150 - a.bits as int / 0x80_0000) as nat);
    let (n, t) = (number(a), power as real);
    assert(n == x) by (nonlinear_arith)
        requires
            n * t == x * t,
            t > 0 as real,
    ;
}

/// The number of a wide pattern whose significand and exponent are known.
pub proof fn wide_pattern_stands_for(a: Double, significand: int, power: int, x: real)
    requires
        a.bits < 0x8000_0000_0000_0000,
        1 <= a.bits as int / 0x10_0000_0000_0000 <= 1075,
        significand == 0x10_0000_0000_0000 + a.bits as int % 0x10_0000_0000_0000,
        power == pow2((1075 - a.bits as int / 0x10_0000_0000_0000) as nat),
        x * (power as real) == significand as real,
    ensures
        number_wide(a) == x,
        finite_wide(a),
{
    number_of_wide_pattern(a);
    lemma_pow2_pos((1075 - a.bits as int / 0x10_0000_0000_0000) as nat);
    let (n, t) = (number_wide(a), power as real);
    assert(n == x) by (nonlinear_arith)
        requires
            n * t == x * t,
            t > 0 as real,
    ;
}

/// What the constants in single precision stand for, up to one rounding.
pub proof fn constants_are_numbers()
    ensures
        number(single(ZERO)) == 0 as real && finite(single(ZERO)),
        number(single(ONE)) == 1 as real && finite(single(ONE)),
        number(single(TWO)) == 2 as real && finite(single(TWO)),
        number(single(HALF)) == (1 as real) / (2 as real) && finite(single(HALF)),
        number(single(TWO_AND_A_HALF)) == (5 as real) / (2 as real) && finite(
            single(TWO_AND_A_HALF),
        ),
        number(single(THOUSAND)) == 1000 as real && finite(single(THOUSAND)),
        number(single(SIXTY)) == 60 as real && finite(single(SIXTY)),
        number(single(BYTE_MAX)) == 255 as real && finite(single(BYTE_MAX)),
        near(single(TENTH), (1 as real) / (10 as real), ulp()),
        near(single(HUNDREDTH), (1 as real) / (100 as real), ulp() / (10 as real)),
        near(single(TEN_THOUSANDTH), (1 as real) / (10_000 as real), ulp() / (1000 as real)),
        near(single(MILLIONTH), (1 as real) / (1_000_000 as real), ulp() / (100_000 as real)),
        near(single(TWO_TENTHS), (2 as real) / (10 as real), ulp()),
        near(single(THREE_TENTHS), (3 as real) / (10 as real), ulp()),
        near(single(SEVEN_TENTHS), (7 as real) / (10 as real), ulp()),
        near(single(EIGHT_TENTHS), (8 as real) / (10 as real), ulp()),
        near(single(FULL_TURN), (628_318_531 as real) / (100_000_000 as real), parts(8)),
        near(single(QUARTER_TURN), (157_079_633 as real) / (100_000_000 as real), parts(4)),
        near(single(SIXTH_TURN), (104_719_755 as real) / (100_000_000 as real), parts(4)),
        near(single(EIGHTH_TURN), (78_539_816 as real) / (100_000_000 as real), parts(4)),
{
    lemma2_to64();
    lemma2_to64_rest();
    order_is_that_of_numbers(single(ZERO), single(ZERO));
    magnitude_of_zero(0, 23);
    pattern_stands_for(
        single(ONE),
        0x800000,
        0x800000,
        (0x800000 as real) / (0x800000 as real),
    );
    pattern_stands_for(
        single(TWO_AND_A_HALF),
        0xA00000,
        0x400000,
        (0xA00000 as real) / (0x400000 as real),
    );
    pattern_stands_for(
        single(TWO),
        0x800000,
        0x400000,
        (0x800000 as real) / (0x400000 as real),
    );
    pattern_stands_for(
        single(HALF),
        0x800000,
        0x1000000,
        (0x800000 as real) / (0x1000000 as real),
    );
    pattern_stands_for(
        single(THOUSAND),
        0xFA0000,
        0x4000,
        (0xFA0000 as real) / (0x4000 as real),
    );
    pattern_stands_for(
        single(SIXTY),
        0xF00000,
        0x40000,
        (0xF00000 as real) / (0x40000 as real),
    );
    pattern_stands_for(
        single(BYTE_MAX),
        0xFF0000,
        0x10000,
        (0xFF0000 as real) / (0x10000 as real),
    );
    pattern_stands_for(
        single(TENTH),
        0xCCCCCD,
        0x8000000,
        (0xCCCCCD as real) / (0x8000000 as real),
    );
    pattern_stands_for(
        single(HUNDREDTH),
        0xA3D70A,
        0x40000000,
        (0xA3D70A as real) / (0x40000000 as real),
    );
    pattern_stands_for(
        single(TEN_THOUSANDTH),
        0xD1B717,
        0x2000000000,
        (0xD1B717 as real) / (0x2000000000 as real),
    );
    pattern_stands_for(
        single(MILLIONTH),
        0x8637BD,
        0x80000000000,
        (0x8637BD as real) / (0x80000000000 as real),
    );
    pattern_stands_for(
        single(TWO_TENTHS),
        0xCCCCCD,
        0x4000000,
        (0xCCCCCD as real) / (0x4000000 as real),
    );
    pattern_stands_for(
        single(THREE_TENTHS),
        0x99999A,
        0x2000000,
        (0x99999A as real) / (0x2000000 as real),
    );
    pattern_stands_for(
        single(SEVEN_TENTHS),
        0xB33333,
        0x1000000,
        (0xB33333 as real) / (0x1000000 as real),
    );
    pattern_stands_for(
        single(EIGHT_TENTHS),
        0xCCCCCD,
        0x1000000,
        (0xCCCCCD as real) / (0x1000000 as real),
    );
    pattern_stands_for(
        single(FULL_TURN),
        0xC90FDB,
        0x200000,
        (0xC90FDB as real) / (0x200000 as real),
    );
    pattern_stands_for(
        single(QUARTER_TURN),
        0xC90FDB,
        0x800000,
        (0xC90FDB as real) / (0x800000 as real),
    );
    pattern_stands_for(
        single(SIXTH_TURN),
        0x860A92,
        0x800000,
        (0x860A92 as real) / (0x800000 as real),
    );
    pattern_stands_for(
        single(EIGHTH_TURN),
        0xC90FDB,
        0x1000000,
        (0xC90FDB as real) / (0x1000000 as real),
    );
}

/// What the constants in double precision stand for, up to one rounding.
pub proof fn wide_constants_are_numbers()
    ensures
        number_wide(double(WIDE_ZERO)) == 0 as real && finite_wide(double(WIDE_ZERO)),
        number_wide(double(WIDE_ONE)) == 1 as real && finite_wide(double(WIDE_ONE)),
        number_wide(double(WIDE_TWO)) == 2 as real && finite_wide(double(WIDE_TWO)),
        number_wide(double(WIDE_THREE)) == 3 as real && finite_wide(double(WIDE_THREE)),
        number_wide(double(WIDE_HALF)) == (1 as real) / (2 as real) && finite_wide(
            double(WIDE_HALF),
        ),
        near_wide(double(WIDE_TENTH), (1 as real) / (10 as real), ulp_wide()),
{
    lemma2_to64();
    lemma2_to64_rest();
    wide_order_is_that_of_numbers(double(WIDE_ZERO), double(WIDE_ZERO));
    magnitude_of_zero(0, 52);
    wide_pattern_stands_for(
        double(WIDE_ONE),
        0x10000000000000,
        0x10000000000000,
        (0x10000000000000 as real) / (0x10000000000000 as real),
    );
    wide_pattern_stands_for(
        double(WIDE_TWO),
        0x10000000000000,
        0x8000000000000,
        (0x10000000000000 as real) / (0x8000000000000 as real),
    );
    wide_pattern_stands_for(
        double(WIDE_THREE),
        0x18000000000000,
        0x8000000000000,
        (0x18000000000000 as real) / (0x8000000000000 as real),
    );
    wide_pattern_stands_for(
        double(WIDE_HALF),
        0x10000000000000,
        0x20000000000000,
        (0x10000000000000 as real) / (0x20000000000000 as real),
    );
    wide_pattern_stands_for(
        double(WIDE_TENTH),
        0x1999999999999A,
        0x100000000000000,
        (0x1999999999999A as real) / (0x100000000000000 as real),
    );
}

/// The byte of a number is its whole part, from 0 up to 255: nothing of what is below zero,
/// all of what is above.
pub proof fn bytes_are_whole_parts(a: Single)
    requires
        finite(a),
    ensures
        number(a) <= 0 as real ==> a.byte() == 0,
        0 as real <= number(a) < 256 as real ==> a.byte() as real <= number(a) < a.byte() as real
            + 1 as real,
        number(a) >= 256 as real ==> a.byte() == 255,
{
    lemma_pow2_pos(149);
    order_is_that_of_numbers(a, a);
    let one = pow2(149) as int;
    let whole = a.value() / one;
    lemma_fundamental_div_mod(a.value(), one);
    lemma_mod_bound(a.value(), one);
    let (v, u, w) = (a.value() as real, one as real, whole as real);
    product_as_real(one, whole);
    let rest = (a.value() % one) as real;
    assert(v == u * w + rest);
    quotient_times_divisor(v, u);
    let n = number(a);
    assert(n * u == v);
    reorder(u, w, u);
    assert(w <= n) by {
        cancel(w, n, u);
    }
    let next = w + 1 as real;
    distribute(u, w, 1 as real);
    assert(u * (w + 1 as real) == u * w + u);
    reorder(u, next, u);
    assert(n < next) by {
        if n >= next {
            scale_bound(next, n, u);
        }
    }
    if a.value() > 0 {
        lemma_div_pos_is_pos(a.value(), one);
    }
}

/// A number that is kept within a range is the number itself inside it, and the nearer end
/// outside.
pub proof fn clamps_are_those_of_numbers(a: Single, low: Single, high: Single)
    requires
        finite(a),
        finite(low),
        finite(high),
        number(low) <= number(high),
    ensures
        finite(a.clamped(low, high)),
        number(a.clamped(low, high)) == greater(number(low), lesser(number(a), number(high))),
        number(low) <= number(a) <= number(high) ==> a.clamped(low, high) == a,
{
    order_is_that_of_numbers(a, low);
    order_is_that_of_numbers(high, a);
}

/// The same of doubles, and which of two doubles is kept as the smaller or the larger.
pub proof fn wide_choices_are_those_of_numbers(a: Double, low: Double, high: Double)
    requires
        finite_wide(a),
        finite_wide(low),
        finite_wide(high),
        number_wide(low) <= number_wide(high),
    ensures
        finite_wide(a.clamped(low, high)),
        number_wide(a.clamped(low, high)) == greater(
            number_wide(low),
            lesser(number_wide(a), number_wide(high)),
        ),
        number_wide(a.smaller(low)) == lesser(number_wide(a), number_wide(low)),
        number_wide(a.larger(low)) == greater(number_wide(a), number_wide(low)),
        a.precedes(low) <==> number_wide(a) < number_wide(low),
{
    wide_order_is_that_of_numbers(a, low);
    wide_order_is_that_of_numbers(low, a);
    wide_order_is_that_of_numbers(high, a);
}

} // verus!
