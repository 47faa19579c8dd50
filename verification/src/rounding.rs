//! What sound rounding is, and what follows from it.
//!
//! No function of the library asks for it. The laws that hold only of an arithmetic
//! that rounds to a neighbour of the exact result, as IEEE 754 arithmetic does, name it.

use crate::constants::{HALF, ONE, TWO, ZERO};
use crate::number::{
    magnitude_is_strictly_increasing, magnitude_of_zero, single, Double, Single, DOUBLE_INFINITY,
    SINGLE_INFINITY, SINGLE_SIGN,
};
use crate::unit::{FloatUnit, Op};
use vstd::arithmetic::div_mod::*;
use vstd::arithmetic::mul::*;
use vstd::arithmetic::power2::*;
use vstd::prelude::*;

verus! {

/// How many units of the smallest positive single make one.
pub open spec fn one() -> int {
    pow2(149) as int
}

/// Whether a single is a finite number.
pub open spec fn finite(a: Single) -> bool {
    a.unsigned() < SINGLE_INFINITY
}

/// Whether a single is a number next to an exact quotient: no single lies strictly
/// between the two.
pub open spec fn beside(r: Single, numerator: int, denominator: int) -> bool {
    &&& !r.not_a_number()
    &&& forall|c: Single|
        !c.not_a_number() && (#[trigger] c.value()) * denominator <= numerator ==> c.value()
            <= r.value()
    &&& forall|c: Single|
        !c.not_a_number() && (#[trigger] c.value()) * denominator >= numerator ==> c.value()
            >= r.value()
}

/// Whether a unit rounds soundly: sums, differences, products and quotients of finite
/// numbers lie beside the exact ones; what is no number stays none; infinity is kept by
/// sums with numbers that are not negative, by products with positive ones, where
/// something finite is taken from it and where it is divided by something positive; and a time in seconds is finite and not negative.
pub open spec fn rounds_soundly<F: Fn(Op, u64, u64) -> u64>(unit: FloatUnit<F>) -> bool {
    &&& forall|a: Single, b: Single|
        finite(a) && finite(b) ==> beside(#[trigger] unit.plus(a, b), a.value() + b.value(), 1)
    &&& forall|a: Single, b: Single|
        finite(a) && finite(b) ==> beside(#[trigger] unit.minus(a, b), a.value() - b.value(), 1)
    &&& forall|a: Single, b: Single|
        finite(a) && finite(b) ==> beside(
            #[trigger] unit.times(a, b),
            a.value() * b.value(),
            one(),
        )
    &&& forall|a: Single, b: Single|
        finite(a) && finite(b) && b.value() > 0 ==> beside(
            #[trigger] unit.over(a, b),
            a.value() * one(),
            b.value(),
        )
    &&& forall|a: Single, b: Single|
        a.not_a_number() || b.not_a_number() ==> (#[trigger] unit.plus(a, b)).not_a_number()
    &&& forall|a: Single, b: Single|
        a.not_a_number() || b.not_a_number() ==> (#[trigger] unit.times(a, b)).not_a_number()
    &&& forall|a: Single, b: Single|
        reaches_infinity(a, b) ==> #[trigger] unit.plus(a, b) == single(SINGLE_INFINITY)
    &&& forall|a: Single, b: Single|
        reaches_infinity(a, b) ==> if a.value() == 0 || b.value() == 0 {
            (#[trigger] unit.times(a, b)).not_a_number()
        } else {
            unit.times(a, b) == single(SINGLE_INFINITY)
        }
    &&& forall|b: Single|
        finite(b) ==> #[trigger] unit.minus(single(SINGLE_INFINITY), b) == single(SINGLE_INFINITY)
    &&& forall|b: Single|
        finite(b) && b.value() > 0 ==> #[trigger] unit.over(single(SINGLE_INFINITY), b) == single(
            SINGLE_INFINITY,
        )
    &&& forall|nanos: u64|
        finite(#[trigger] unit.in_seconds(nanos)) && unit.in_seconds(nanos).value() >= 0
}

/// Whether a single is a number as close to an exact quotient as any.
pub open spec fn nearest(r: Single, numerator: int, denominator: int) -> bool {
    &&& !r.not_a_number()
    &&& forall|c: Single|
        !c.not_a_number() ==> size(r.value() * denominator - numerator) <= size(
            (#[trigger] c.value()) * denominator - numerator,
        )
}

/// A whole number without its sign.
pub open spec fn size(n: int) -> int {
    if n < 0 {
        -n
    } else {
        n
    }
}

/// How many units of the smallest positive double make one.
pub open spec fn one_wide() -> int {
    pow2(1074) as int
}

/// How many units of the smallest positive double make one of the smallest positive
/// single.
pub open spec fn units_per_single() -> int {
    pow2(925) as int
}

/// Whether a double is a finite number.
pub open spec fn finite_wide(a: Double) -> bool {
    a.unsigned() < DOUBLE_INFINITY
}

/// Whether a double is a number next to an exact quotient: no double lies strictly
/// between the two.
pub open spec fn beside_wide(r: Double, numerator: int, denominator: int) -> bool {
    &&& !r.not_a_number()
    &&& forall|c: Double|
        !c.not_a_number() && (#[trigger] c.value()) * denominator <= numerator ==> c.value()
            <= r.value()
    &&& forall|c: Double|
        !c.not_a_number() && (#[trigger] c.value()) * denominator >= numerator ==> c.value()
            >= r.value()
}

/// Whether a unit rounds soundly in both precisions, and where it makes a single of a
/// product or of a double, to the nearest one. Differences and products of finite
/// doubles lie beside the exact ones.
pub open spec fn rounds_to_nearest<F: Fn(Op, u64, u64) -> u64>(unit: FloatUnit<F>) -> bool {
    &&& rounds_soundly(unit)
    &&& forall|a: Single, b: Single|
        finite(a) && finite(b) ==> nearest(
            #[trigger] unit.times(a, b),
            a.value() * b.value(),
            one(),
        )
    &&& forall|a: Double|
        finite_wide(a) ==> nearest(#[trigger] unit.narrowed(a), a.value(), units_per_single())
    &&& forall|a: Double, b: Double|
        finite_wide(a) && finite_wide(b) ==> beside_wide(
            #[trigger] unit.minus_wide(a, b),
            a.value() - b.value(),
            1,
        )
    &&& forall|a: Double, b: Double|
        finite_wide(a) && finite_wide(b) ==> beside_wide(
            #[trigger] unit.times_wide(a, b),
            a.value() * b.value(),
            one_wide(),
        )
}

/// Whether one of two numbers that are not negative is infinite.
pub open spec fn reaches_infinity(a: Single, b: Single) -> bool {
    &&& !a.not_a_number() && !b.not_a_number()
    &&& a.value() >= 0 && b.value() >= 0
    &&& !(finite(a) && finite(b))
}

/// Whether a single is at least so many units, where it is a number.
pub open spec fn at_least(a: Single, units: int) -> bool {
    a.not_a_number() || a.value() >= units
}

/// What the constants stand for.
pub proof fn constants_stand_for()
    ensures
        single(ZERO).value() == 0,
        single(ONE).value() == one(),
        single(TWO).value() == 2 * one(),
        2 * single(HALF).value() == one(),
        one() > 0,
        finite(single(ZERO)) && finite(single(ONE)) && finite(single(HALF)),
{
    lemma2_to64();
    lemma_pow2_pos(149);
    magnitude_of_zero(0, 23);
    lemma_pow2_adds(23, 126);
    lemma_pow2_adds(23, 127);
    lemma_pow2_adds(23, 125);
    lemma_pow2_unfold(150);
    lemma_pow2_unfold(149);
}

/// A number no larger than a finite number, whatever their signs, is finite.
pub proof fn bounded_is_finite(a: Single, b: Single)
    requires
        !a.not_a_number(),
        finite(b),
        size(a.value()) <= size(b.value()),
    ensures
        finite(a),
{
    magnitude_is_strictly_increasing(b.unsigned(), SINGLE_INFINITY as nat, 23);
}

/// A double no larger than a finite double, whatever their signs, is finite.
pub proof fn bounded_is_finite_wide(a: Double, b: Double)
    requires
        !a.not_a_number(),
        finite_wide(b),
        size(a.value()) <= size(b.value()),
    ensures
        finite_wide(a),
{
    magnitude_is_strictly_increasing(b.unsigned(), DOUBLE_INFINITY as nat, 52);
}

/// Singles that stand for the same number other than zero have the same pattern.
pub proof fn numbers_have_one_pattern(a: Single, b: Single)
    requires
        a.value() == b.value(),
        a.value() != 0,
    ensures
        a == b,
{
    if a.unsigned() < b.unsigned() {
        magnitude_is_strictly_increasing(a.unsigned(), b.unsigned(), 23);
    } else if b.unsigned() < a.unsigned() {
        magnitude_is_strictly_increasing(b.unsigned(), a.unsigned(), 23);
    }
}

/// Of two exact quotients the nearest single to the larger is no smaller.
proof fn nearest_keeps_the_order(a: Single, b: Single, less: int, more: int, denominator: int)
    requires
        nearest(a, less, denominator),
        nearest(b, more, denominator),
        less < more,
        denominator > 0,
    ensures
        a.value() <= b.value(),
{
    if a.value() > b.value() {
        let x = a.value() * denominator;
        let y = b.value() * denominator;
        assert(x > y) by (nonlinear_arith)
            requires
                x == a.value() * denominator,
                y == b.value() * denominator,
                a.value() > b.value(),
                denominator > 0,
        ;
        assert(size(x - less) <= size(y - less));
        assert(size(y - more) <= size(x - more));
    }
}

/// Products with a positive number keep the order of the other factors.
pub proof fn products_keep_the_order<F: Fn(Op, u64, u64) -> u64>(
    unit: FloatUnit<F>,
    a: Single,
    b: Single,
    k: Single,
)
    requires
        rounds_to_nearest(unit),
        finite(a),
        finite(b),
        finite(k),
        a.value() <= b.value(),
        k.value() > 0,
    ensures
        unit.times(a, k).value() <= unit.times(b, k).value(),
        a.value() > 0 ==> unit.times(k, a).value() <= unit.times(k, b).value(),
{
    constants_stand_for();
    let (x, y, z) = (a.value(), b.value(), k.value());
    assert(z * x == x * z && z * y == y * z) by (nonlinear_arith);
    if x < y {
        assert(x * z < y * z) by (nonlinear_arith)
            requires
                x < y,
                z > 0,
        ;
        nearest_keeps_the_order(unit.times(a, k), unit.times(b, k), x * z, y * z, one());
        nearest_keeps_the_order(unit.times(k, a), unit.times(k, b), z * x, z * y, one());
    } else if x != 0 {
        numbers_have_one_pattern(a, b);
    } else {
        assert(x * z == 0 && y * z == 0) by (nonlinear_arith)
            requires
                x == 0,
                y == 0,
        ;
        let zero = single(ZERO).value() * one();
        assert(zero == 0) by (nonlinear_arith)
            requires
                zero == single(ZERO).value() * one(),
                single(ZERO).value() == 0,
        ;
        assert(beside(unit.times(a, k), x * z, one()));
        assert(beside(unit.times(b, k), y * z, one()));
    }
}

/// A product with a number from above zero up to one lies between zero and the other
/// factor.
pub proof fn fractions_are_smaller<F: Fn(Op, u64, u64) -> u64>(
    unit: FloatUnit<F>,
    a: Single,
    k: Single,
)
    requires
        rounds_soundly(unit),
        finite(a),
        finite(k),
        0 < k.value() <= one(),
    ensures
        finite(unit.times(a, k)),
        a.value() >= 0 ==> 0 <= unit.times(a, k).value() <= a.value(),
        a.value() <= 0 ==> a.value() <= unit.times(a, k).value() <= 0,
{
    constants_stand_for();
    let r = unit.times(a, k);
    let (x, z, u) = (a.value(), k.value(), one());
    assert(beside(r, x * z, u));
    let zero = single(ZERO).value() * u;
    assert(zero == 0) by (nonlinear_arith)
        requires
            zero == single(ZERO).value() * u,
            single(ZERO).value() == 0,
    ;
    if x >= 0 {
        assert(0 <= x * z <= x * u) by (nonlinear_arith)
            requires
                x >= 0,
                0 < z <= u,
        ;
    }
    if x <= 0 {
        assert(x * u <= x * z <= 0) by (nonlinear_arith)
            requires
                x <= 0,
                0 < z <= u,
        ;
    }
    bounded_is_finite(r, a);
}

/// A larger number is no smaller a byte.
pub proof fn bytes_keep_the_order(a: Single, b: Single)
    requires
        !a.not_a_number(),
        !b.not_a_number(),
        a.value() <= b.value(),
    ensures
        a.byte() <= b.byte(),
{
    lemma_pow2_pos(149);
    lemma_div_is_ordered(a.value(), b.value(), one());
    if a.value() > 0 {
        lemma_div_pos_is_pos(a.value(), one());
    }
    if b.value() > 0 {
        lemma_div_pos_is_pos(b.value(), one());
    }
}

/// An infinite number that is not negative has the pattern of infinity.
pub proof fn infinity_is_one(a: Single)
    requires
        !a.not_a_number(),
        !finite(a),
        a.value() >= 0,
    ensures
        a == single(SINGLE_INFINITY),
        forall|b: Single|
            !b.not_a_number() ==> (#[trigger] b.value()) <= single(SINGLE_INFINITY).value(),
{
    magnitude_of_zero(SINGLE_INFINITY as nat, 23);
    assert forall|b: Single| !b.not_a_number() implies (#[trigger] b.value()) <= single(
        SINGLE_INFINITY,
    ).value() by {
        if b.unsigned() < SINGLE_INFINITY {
            magnitude_is_strictly_increasing(b.unsigned(), SINGLE_INFINITY as nat, 23);
        }
    }
}

/// Every number of up to 24 binary digits at a place of the format is a single.
pub proof fn short_numbers_are_singles(digits: nat, place: nat) -> (r: Single)
    requires
        digits < 0x100_0000,
        place < 254,
    ensures
        finite(r),
        r.bits < SINGLE_SIGN,
        r.value() == digits * pow2(place),
    decreases place,
{
    lemma2_to64();
    if digits >= 0x80_0000 {
        let bits = ((place + 1) * 0x80_0000 + (digits - 0x80_0000)) as int;
        assert(bits / 0x80_0000 == place + 1);
        assert(bits % 0x80_0000 == digits - 0x80_0000);
        assert(bits < SINGLE_INFINITY);
        single(bits as u32)
    } else if place == 0 {
        let r = single(digits as u32);
        lemma_basic_div(digits as int, 0x80_0000);
        lemma_small_mod(digits, 0x80_0000);
        lemma_mul_basics(digits as int);
        r
    } else {
        let r = short_numbers_are_singles(2 * digits, (place - 1) as nat);
        lemma_pow2_unfold(place);
        assert((2 * digits) * pow2((place - 1) as nat) == digits * (2 * pow2((place - 1) as nat)))
            by (nonlinear_arith);
        r
    }
}

/// The digits and the place of a finite number of at least one.
proof fn digits_of(a: Single) -> (r: (nat, nat))
    requires
        finite(a),
        a.value() >= one(),
    ensures
        0x80_0000 <= r.0 < 0x100_0000,
        126 <= r.1 < 254,
        a.value() == r.0 * pow2(r.1),
        a.value() >= 2 * one() ==> r.1 >= 127,
        a.value() < 2 * one() ==> r.1 == 126,
{
    constants_stand_for();
    lemma2_to64();
    if a.bits < ONE {
        magnitude_is_strictly_increasing(a.bits as nat, ONE as nat, 23);
    }
    if a.bits < TWO {
        magnitude_is_strictly_increasing(a.bits as nat, TWO as nat, 23);
    } else if a.bits > TWO {
        magnitude_is_strictly_increasing(TWO as nat, a.unsigned(), 23);
    }
    let exponent = a.bits as int / 0x80_0000;
    let fraction = a.bits as int % 0x80_0000;
    assert(a.bits == exponent * 0x80_0000 + fraction);
    assert(127 <= exponent < 255);
    ((0x80_0000 + fraction) as nat, (exponent - 1) as nat)
}

/// Products of what is not negative are not negative.
pub proof fn products_are_not_negative<F: Fn(Op, u64, u64) -> u64>(
    unit: FloatUnit<F>,
    a: Single,
    b: Single,
)
    requires
        rounds_soundly(unit),
        at_least(a, 0),
        at_least(b, 0),
    ensures
        at_least(unit.times(a, b), 0),
{
    constants_stand_for();
    let r = unit.times(a, b);
    if !a.not_a_number() && !b.not_a_number() {
        if finite(a) && finite(b) {
            assert(a.value() * b.value() >= 0) by (nonlinear_arith)
                requires
                    a.value() >= 0,
                    b.value() >= 0,
            ;
            assert(single(ZERO).value() * one() == 0) by (nonlinear_arith)
                requires
                    single(ZERO).value() == 0,
            ;
            assert(beside(r, a.value() * b.value(), one()));
        } else {
            assert(reaches_infinity(a, b));
            magnitude_of_zero(SINGLE_INFINITY as nat, 23);
        }
    }
}

/// Products of what is at least one are at least one.
pub proof fn products_are_at_least_one<F: Fn(Op, u64, u64) -> u64>(
    unit: FloatUnit<F>,
    a: Single,
    b: Single,
)
    requires
        rounds_soundly(unit),
        at_least(a, one()),
        at_least(b, one()),
    ensures
        at_least(unit.times(a, b), one()),
{
    constants_stand_for();
    let r = unit.times(a, b);
    if !a.not_a_number() && !b.not_a_number() {
        if finite(a) && finite(b) {
            let u = one();
            assert(a.value() * b.value() >= u * u) by (nonlinear_arith)
                requires
                    a.value() >= u,
                    b.value() >= u,
                    u > 0,
            ;
            assert(beside(r, a.value() * b.value(), one()));
            assert(single(ONE).value() * one() <= a.value() * b.value());
        } else {
            assert(reaches_infinity(a, b));
            let large = if finite(a) {
                b
            } else {
                a
            };
            infinity_is_one(large);
        }
    }
}

/// One and something that is not negative are at least one.
pub proof fn sums_with_one_are_at_least_one<F: Fn(Op, u64, u64) -> u64>(
    unit: FloatUnit<F>,
    a: Single,
)
    requires
        rounds_soundly(unit),
        at_least(a, 0),
    ensures
        at_least(unit.plus(single(ONE), a), one()),
{
    constants_stand_for();
    let r = unit.plus(single(ONE), a);
    if !a.not_a_number() {
        if finite(a) {
            assert(beside(r, one() + a.value(), 1));
            assert(single(ONE).value() * 1 <= one() + a.value());
        } else {
            assert(reaches_infinity(single(ONE), a));
            infinity_is_one(a);
            assert(single(ONE).value() <= single(SINGLE_INFINITY).value());
        }
    }
}

/// What a larger number has above one that is not negative is positive, and no more
/// than the number.
pub proof fn differences_are_positive<F: Fn(Op, u64, u64) -> u64>(
    unit: FloatUnit<F>,
    a: Single,
    b: Single,
)
    requires
        rounds_soundly(unit),
        finite(a),
        finite(b),
        0 <= b.value() < a.value(),
    ensures
        !unit.minus(a, b).not_a_number(),
        0 < unit.minus(a, b).value() <= a.value(),
{
    lemma2_to64();
    assert(beside(unit.minus(a, b), a.value() - b.value(), 1));
    let smallest = short_numbers_are_singles(1, 0);
    assert(smallest.value() * 1 <= a.value() - b.value());
    assert(a.value() * 1 >= a.value() - b.value());
}

/// Quotients of what is finite and not negative are not negative.
pub proof fn quotients_are_not_negative<F: Fn(Op, u64, u64) -> u64>(
    unit: FloatUnit<F>,
    a: Single,
    b: Single,
)
    requires
        rounds_soundly(unit),
        finite(a),
        a.value() >= 0,
        finite(b),
        b.value() > 0,
    ensures
        at_least(unit.over(a, b), 0),
{
    constants_stand_for();
    let u = one();
    assert(beside(unit.over(a, b), a.value() * u, b.value()));
    assert(a.value() * u >= 0) by (nonlinear_arith)
        requires
            a.value() >= 0,
            u > 0,
    ;
    assert(single(ZERO).value() * b.value() == 0) by (nonlinear_arith)
        requires
            single(ZERO).value() == 0,
    ;
}

/// One and half of what a number has above one: at least one, and no more than the
/// number.
pub proof fn halving_the_excess_stays_between<F: Fn(Op, u64, u64) -> u64>(
    unit: FloatUnit<F>,
    a: Single,
)
    requires
        rounds_soundly(unit),
        !a.not_a_number(),
        a.value() >= one(),
    ensures
        ({
            let r = unit.plus(
                single(ONE),
                unit.times(unit.minus(a, single(ONE)), single(HALF)),
            );
            !r.not_a_number() && one() <= r.value() <= a.value()
        }),
{
    constants_stand_for();
    let excess = unit.minus(a, single(ONE));
    let half = unit.times(excess, single(HALF));
    let r = unit.plus(single(ONE), half);
    if !finite(a) {
        infinity_is_one(a);
        assert(excess == a);
        assert(reaches_infinity(a, single(HALF)));
        assert(half == a);
        assert(reaches_infinity(single(ONE), a));
    } else {
        let value = a.value();
        assert(beside(excess, value - one(), 1));
        assert(single(ZERO).value() * 1 <= value - one());
        assert(a.value() * 1 >= value - one());
        assert(0 <= excess.value() <= value);
        bounded_is_finite(excess, a);
        assert(beside(half, excess.value() * single(HALF).value(), one()));
        products_are_not_negative(unit, excess, single(HALF));
        let (digits, place) = digits_of(a);
        let bound = if value >= 2 * one() {
            let bound = short_numbers_are_singles(digits, (place - 1) as nat);
            lemma_pow2_unfold(place);
            assert(2 * (digits * pow2((place - 1) as nat)) == digits * (2 * pow2(
                (place - 1) as nat,
            ))) by (nonlinear_arith);
            assert(2 * bound.value() == value);
            assert(2 * bound.value() >= excess.value());
            bound
        } else {
            let bound = short_numbers_are_singles((digits - 0x80_0000) as nat, place);
            lemma2_to64();
            lemma_pow2_adds(23, 126);
            assert((digits - 0x80_0000) * pow2(place) == digits * pow2(place) - 0x80_0000 * pow2(
                place,
            )) by (nonlinear_arith);
            assert(bound.value() == value - one());
            assert(bound.value() * 1 == value - one());
            assert(excess.value() == bound.value());
            bound
        };
        assert(2 * bound.value() >= excess.value());
        assert(bound.value() + one() <= value);
        let u = one();
        let h = single(HALF).value();
        assert(bound.value() * u >= excess.value() * h) by (nonlinear_arith)
            requires
                2 * bound.value() >= excess.value(),
                2 * h == u,
                u > 0,
        ;
        assert(half.value() <= bound.value());
        bounded_is_finite(half, a);
        assert(beside(r, one() + half.value(), 1));
        assert(single(ONE).value() * 1 <= one() + half.value());
        assert(a.value() * 1 >= one() + half.value());
    }
}

} // verus!
