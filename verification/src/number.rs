//! Binary floating-point numbers held by their bit patterns, with the order
//! and the conversions that can be decided from the pattern alone.

use vstd::arithmetic::div_mod::*;
use vstd::arithmetic::mul::*;
use vstd::arithmetic::power2::*;
use vstd::prelude::*;

verus! {

/// The number that an unsigned pattern stands for, counted in units of the
/// smallest positive number of its format. The low `width` bits are the
/// fraction, the bits above them the biased exponent. The pattern of infinity
/// counts as the number that would follow the largest finite one.
pub open spec fn magnitude(pattern: nat, width: nat) -> nat {
    let exponent = pattern / pow2(width);
    let fraction = pattern % pow2(width);
    if exponent == 0 {
        fraction
    } else {
        (pow2(width) + fraction) * pow2((exponent - 1) as nat)
    }
}

/// Unsigned patterns are ordered as the numbers that they stand for.
pub proof fn magnitude_is_strictly_increasing(a: nat, b: nat, width: nat)
    requires
        a < b,
    ensures
        magnitude(a, width) < magnitude(b, width),
{
    let unit = pow2(width) as int;
    lemma_pow2_pos(width);
    let (ea, fa) = (a as int / unit, a as int % unit);
    let (eb, fb) = (b as int / unit, b as int % unit);
    lemma_fundamental_div_mod(a as int, unit);
    lemma_fundamental_div_mod(b as int, unit);
    lemma_div_pos_is_pos(a as int, unit);
    lemma_div_pos_is_pos(b as int, unit);
    lemma_mod_bound(a as int, unit);
    lemma_mod_bound(b as int, unit);
    lemma_div_is_ordered(a as int, b as int, unit);
    if ea == eb {
        assert(fa < fb);
        if ea > 0 {
            lemma_pow2_pos((ea - 1) as nat);
            lemma_mul_strict_inequality(unit + fa, unit + fb, pow2((ea - 1) as nat) as int);
        }
    } else {
        assert(ea < eb);
        let step = pow2((eb - 1) as nat) as int;
        lemma_pow2_pos((eb - 1) as nat);
        lemma_mul_inequality(unit, unit + fb, step);
        assert(magnitude(b, width) >= unit * step);
        if ea == 0 {
            lemma_mul_inequality(1, step, unit);
            lemma_mul_is_commutative(unit, step);
            assert(magnitude(a, width) == fa);
        } else {
            let low = pow2((ea - 1) as nat) as int;
            lemma_pow2_pos((ea - 1) as nat);
            lemma_mul_strict_inequality(unit + fa, 2 * unit, low);
            lemma_pow2_unfold(ea as nat);
            if ea < eb - 1 {
                lemma_pow2_strictly_increases(ea as nat, (eb - 1) as nat);
            }
            assert(2 * low <= step);
            assert((2 * unit) * low == unit * (2 * low)) by (nonlinear_arith);
            lemma_mul_inequality(2 * low, step, unit);
            lemma_mul_is_commutative(unit, 2 * low);
            lemma_mul_is_commutative(unit, step);
        }
    }
}

/// The pattern of zero is the only one that stands for zero.
pub proof fn magnitude_of_zero(a: nat, width: nat)
    ensures
        magnitude(0, width) == 0,
        a > 0 ==> magnitude(a, width) > 0,
{
    lemma_pow2_pos(width);
    lemma_div_basics(pow2(width) as int);
    lemma_small_mod(0, pow2(width));
    if a > 0 {
        magnitude_is_strictly_increasing(0, a, width);
    }
}

/// The first negative pattern of a single, and so the number of patterns
/// without a sign.
pub const SINGLE_SIGN: u32 = 0x8000_0000;

/// The pattern of the single-precision infinity.
pub const SINGLE_INFINITY: u32 = 0x7F80_0000;

/// The first negative pattern of a double, and so the number of patterns
/// without a sign.
pub const DOUBLE_SIGN: u64 = 0x8000_0000_0000_0000;

/// The pattern of the double-precision infinity.
pub const DOUBLE_INFINITY: u64 = 0x7FF0_0000_0000_0000;

/// A single-precision number, held by its bit pattern.
///
/// `==` compares patterns: the two zeros differ and a NaN equals itself.
#[derive(Clone, Copy, Debug, PartialEq, Eq, Structural)]
pub struct Single {
    pub bits: u32,
}

/// A double-precision number, held by its bit pattern.
///
/// `==` compares patterns: the two zeros differ and a NaN equals itself.
#[derive(Clone, Copy, Debug, PartialEq, Eq, Structural)]
pub struct Double {
    pub bits: u64,
}

/// The single-precision number of a pattern.
#[verifier::allow_in_spec]
pub fn single(bits: u32) -> Single
    returns
        (Single { bits }),
{
    Single { bits }
}

/// The double-precision number of a pattern.
#[verifier::allow_in_spec]
pub fn double(bits: u64) -> Double
    returns
        (Double { bits }),
{
    Double { bits }
}

impl Single {
    /// The pattern without its sign.
    pub open spec fn unsigned(self) -> nat {
        if self.bits < SINGLE_SIGN {
            self.bits as nat
        } else {
            (self.bits - SINGLE_SIGN) as nat
        }
    }

    /// Whether the pattern stands for no number.
    pub open spec fn not_a_number(self) -> bool {
        self.unsigned() > SINGLE_INFINITY
    }

    /// The number that the pattern stands for, in units of 2^-149, the smallest
    /// positive number of the format.
    pub open spec fn value(self) -> int {
        if self.bits < SINGLE_SIGN {
            magnitude(self.unsigned(), 23) as int
        } else {
            -(magnitude(self.unsigned(), 23) as int)
        }
    }

    /// Whether both patterns stand for numbers and the first number is smaller.
    pub open spec fn precedes(self, other: Single) -> bool {
        !self.not_a_number() && !other.not_a_number() && self.value() < other.value()
    }

    /// The larger of two numbers; a pattern that is no number gives way.
    pub open spec fn larger(self, other: Single) -> Single {
        if self.not_a_number() || self.precedes(other) {
            other
        } else {
            self
        }
    }

    /// The smaller of two numbers; a pattern that is no number gives way.
    pub open spec fn smaller(self, other: Single) -> Single {
        if self.not_a_number() || other.precedes(self) {
            other
        } else {
            self
        }
    }

    /// The number moved to the nearer end of a range that it lies outside of. A
    /// pattern that is no number stays.
    pub open spec fn clamped(self, low: Single, high: Single) -> Single {
        if self.precedes(low) {
            low
        } else if high.precedes(self) {
            high
        } else {
            self
        }
    }

    /// The number with the other sign.
    pub open spec fn negated(self) -> Single {
        if self.bits < SINGLE_SIGN {
            Single { bits: (self.bits + SINGLE_SIGN) as u32 }
        } else {
            Single { bits: (self.bits - SINGLE_SIGN) as u32 }
        }
    }

    fn unsigned_bits(self) -> (r: u32)
        ensures
            r == self.unsigned(),
            r < SINGLE_SIGN,
    {
        if self.bits < SINGLE_SIGN {
            self.bits
        } else {
            self.bits - SINGLE_SIGN
        }
    }

    /// Whether the pattern stands for no number.
    pub fn is_nan(self) -> (r: bool)
        ensures
            r == self.not_a_number(),
    {
        self.unsigned_bits() > SINGLE_INFINITY
    }

    /// Whether the first number is smaller than the second. False where either
    /// pattern is no number.
    pub fn less(self, other: Single) -> (r: bool)
        ensures
            r == self.precedes(other),
    {
        let a: u32 = self.unsigned_bits();
        let b: u32 = other.unsigned_bits();
        proof {
            magnitude_of_zero(a as nat, 23);
            magnitude_of_zero(b as nat, 23);
            if a < b {
                magnitude_is_strictly_increasing(a as nat, b as nat, 23);
            } else if b < a {
                magnitude_is_strictly_increasing(b as nat, a as nat, 23);
            }
        }
        if a > SINGLE_INFINITY || b > SINGLE_INFINITY {
            false
        } else if self.bits < SINGLE_SIGN {
            other.bits < SINGLE_SIGN && a < b
        } else if other.bits < SINGLE_SIGN {
            a > 0 || b > 0
        } else {
            b < a
        }
    }

    /// The larger of two numbers; a pattern that is no number gives way to the
    /// other one.
    pub fn max(self, other: Single) -> (r: Single)
        ensures
            r == self.larger(other),
    {
        if self.is_nan() || self.less(other) {
            other
        } else {
            self
        }
    }

    /// The smaller of two numbers; a pattern that is no number gives way to the
    /// other one.
    pub fn min(self, other: Single) -> (r: Single)
        ensures
            r == self.smaller(other),
    {
        if self.is_nan() || other.less(self) {
            other
        } else {
            self
        }
    }

    /// The number moved to the nearer end of the range from `low` to `high`
    /// where it lies outside of it.
    pub fn clamp(self, low: Single, high: Single) -> (r: Single)
        requires
            !high.precedes(low),
            !low.not_a_number(),
            !high.not_a_number(),
        ensures
            r == self.clamped(low, high),
    {
        if self.less(low) {
            low
        } else if high.less(self) {
            high
        } else {
            self
        }
    }

    /// The number with the other sign.
    pub fn neg(self) -> (r: Single)
        ensures
            r == self.negated(),
    {
        if self.bits < SINGLE_SIGN {
            Single { bits: self.bits + SINGLE_SIGN }
        } else {
            Single { bits: self.bits - SINGLE_SIGN }
        }
    }

    /// The number cut to a whole one and brought into the range of a byte. A
    /// pattern that is no number gives zero.
    pub open spec fn byte(self) -> u8 {
        let whole = self.value() / pow2(149) as int;
        if self.not_a_number() || self.value() <= 0 {
            0
        } else if whole > 255 {
            255
        } else {
            whole as u8
        }
    }

    /// The number cut to a whole one and brought into the range of a byte.
    pub fn to_byte(self) -> (r: u8)
        ensures
            r == self.byte(),
    {
        let pattern: u32 = self.unsigned_bits();
        proof {
            lemma_byte(self);
        }
        if self.bits >= SINGLE_SIGN || pattern > SINGLE_INFINITY {
            0
        } else {
            let exponent: u32 = pattern / 0x80_0000;
            let significand: u32 = 0x80_0000 + pattern % 0x80_0000;
            if exponent < 127 {
                0
            } else if exponent >= 135 {
                255
            } else {
                let divisor: u32 = match exponent {
                    127 => 0x80_0000,
                    128 => 0x40_0000,
                    129 => 0x20_0000,
                    130 => 0x10_0000,
                    131 => 0x8_0000,
                    132 => 0x4_0000,
                    133 => 0x2_0000,
                    _ => 0x1_0000,
                };
                assert(divisor == pow2((150 - exponent) as nat));
                assert(significand / divisor <= 255) by (nonlinear_arith)
                    requires
                        significand < 0x100_0000,
                        divisor >= 0x1_0000,
                ;
                (significand / divisor) as u8
            }
        }
    }
}

impl Double {
    /// The pattern without its sign.
    pub open spec fn unsigned(self) -> nat {
        if self.bits < DOUBLE_SIGN {
            self.bits as nat
        } else {
            (self.bits - DOUBLE_SIGN) as nat
        }
    }

    /// Whether the pattern stands for no number.
    pub open spec fn not_a_number(self) -> bool {
        self.unsigned() > DOUBLE_INFINITY
    }

    /// The number that the pattern stands for, in units of 2^-1074, the smallest
    /// positive number of the format.
    pub open spec fn value(self) -> int {
        if self.bits < DOUBLE_SIGN {
            magnitude(self.unsigned(), 52) as int
        } else {
            -(magnitude(self.unsigned(), 52) as int)
        }
    }

    /// Whether both patterns stand for numbers and the first number is smaller.
    pub open spec fn precedes(self, other: Double) -> bool {
        !self.not_a_number() && !other.not_a_number() && self.value() < other.value()
    }

    /// The larger of two numbers; a pattern that is no number gives way.
    pub open spec fn larger(self, other: Double) -> Double {
        if self.not_a_number() || self.precedes(other) {
            other
        } else {
            self
        }
    }

    /// The smaller of two numbers; a pattern that is no number gives way.
    pub open spec fn smaller(self, other: Double) -> Double {
        if self.not_a_number() || other.precedes(self) {
            other
        } else {
            self
        }
    }

    /// The number moved to the nearer end of a range that it lies outside of. A
    /// pattern that is no number stays.
    pub open spec fn clamped(self, low: Double, high: Double) -> Double {
        if self.precedes(low) {
            low
        } else if high.precedes(self) {
            high
        } else {
            self
        }
    }

    /// The number with the other sign.
    pub open spec fn negated(self) -> Double {
        if self.bits < DOUBLE_SIGN {
            Double { bits: (self.bits + DOUBLE_SIGN) as u64 }
        } else {
            Double { bits: (self.bits - DOUBLE_SIGN) as u64 }
        }
    }

    fn unsigned_bits(self) -> (r: u64)
        ensures
            r == self.unsigned(),
            r < DOUBLE_SIGN,
    {
        if self.bits < DOUBLE_SIGN {
            self.bits
        } else {
            self.bits - DOUBLE_SIGN
        }
    }

    /// Whether the pattern stands for no number.
    pub fn is_nan(self) -> (r: bool)
        ensures
            r == self.not_a_number(),
    {
        self.unsigned_bits() > DOUBLE_INFINITY
    }

    /// Whether the first number is smaller than the second. False where either
    /// pattern is no number.
    pub fn less(self, other: Double) -> (r: bool)
        ensures
            r == self.precedes(other),
    {
        let a: u64 = self.unsigned_bits();
        let b: u64 = other.unsigned_bits();
        proof {
            magnitude_of_zero(a as nat, 52);
            magnitude_of_zero(b as nat, 52);
            if a < b {
                magnitude_is_strictly_increasing(a as nat, b as nat, 52);
            } else if b < a {
                magnitude_is_strictly_increasing(b as nat, a as nat, 52);
            }
        }
        if a > DOUBLE_INFINITY || b > DOUBLE_INFINITY {
            false
        } else if self.bits < DOUBLE_SIGN {
            other.bits < DOUBLE_SIGN && a < b
        } else if other.bits < DOUBLE_SIGN {
            a > 0 || b > 0
        } else {
            b < a
        }
    }

    /// The larger of two numbers; a pattern that is no number gives way to the
    /// other one.
    pub fn max(self, other: Double) -> (r: Double)
        ensures
            r == self.larger(other),
    {
        if self.is_nan() || self.less(other) {
            other
        } else {
            self
        }
    }

    /// The smaller of two numbers; a pattern that is no number gives way to the
    /// other one.
    pub fn min(self, other: Double) -> (r: Double)
        ensures
            r == self.smaller(other),
    {
        if self.is_nan() || other.less(self) {
            other
        } else {
            self
        }
    }

    /// The number moved to the nearer end of the range from `low` to `high`
    /// where it lies outside of it.
    pub fn clamp(self, low: Double, high: Double) -> (r: Double)
        requires
            !high.precedes(low),
            !low.not_a_number(),
            !high.not_a_number(),
        ensures
            r == self.clamped(low, high),
    {
        if self.less(low) {
            low
        } else if high.less(self) {
            high
        } else {
            self
        }
    }

    /// The number with the other sign.
    pub fn neg(self) -> (r: Double)
        ensures
            r == self.negated(),
    {
        if self.bits < DOUBLE_SIGN {
            Double { bits: self.bits + DOUBLE_SIGN }
        } else {
            Double { bits: self.bits - DOUBLE_SIGN }
        }
    }
}

/// What a positive single is as a whole number, by its exponent.
proof fn lemma_byte(x: Single)
    ensures
        x.bits < SINGLE_SIGN ==> {
            let exponent = x.bits as int / 0x80_0000;
            let significand = 0x80_0000 + x.bits as int % 0x80_0000;
            let whole = x.value() / pow2(149) as int;
            &&& exponent > 0 ==> x.value() > 0
            &&& exponent < 127 ==> whole == 0
            &&& exponent >= 135 ==> whole > 255
            &&& 127 <= exponent < 135 ==> whole == significand / pow2((150 - exponent) as nat) as int
        },
        pow2(16) == 0x1_0000,
        pow2(17) == 0x2_0000,
        pow2(18) == 0x4_0000,
        pow2(19) == 0x8_0000,
        pow2(20) == 0x10_0000,
        pow2(21) == 0x20_0000,
        pow2(22) == 0x40_0000,
        pow2(23) == 0x80_0000,
{
    lemma2_to64();
    lemma_pow2_pos(149);
    let one = pow2(149) as int;
    if x.bits < SINGLE_SIGN {
        let exponent = x.bits as int / 0x80_0000;
        let fraction = x.bits as int % 0x80_0000;
        let significand = 0x80_0000 + fraction;
        let value = x.value();
        if exponent == 0 {
            lemma_pow2_strictly_increases(23, 149);
            lemma_basic_div(value, one);
        } else {
            let step = pow2((exponent - 1) as nat) as int;
            lemma_pow2_pos((exponent - 1) as nat);
            assert(value == significand * step);
            lemma_mul_strictly_positive(significand, step);
            if exponent < 127 {
                lemma_pow2_adds(24, (exponent - 1) as nat);
                lemma_mul_strict_inequality(significand, pow2(24) as int, step);
                if exponent < 126 {
                    lemma_pow2_strictly_increases((23 + exponent) as nat, 149);
                }
                lemma_basic_div(value, one);
            } else if exponent < 135 {
                let rest = pow2((150 - exponent) as nat) as int;
                lemma_pow2_pos((150 - exponent) as nat);
                lemma_pow2_adds((exponent - 1) as nat, (150 - exponent) as nat);
                assert(one == step * rest);
                lemma_mul_is_commutative(significand, step);
                lemma_truncate_by_factor(significand, rest, step);
            } else {
                lemma_pow2_adds(23, (exponent - 1) as nat);
                lemma_mul_inequality(pow2(23) as int, significand, step);
                lemma_pow2_adds(8, 149);
                if exponent > 135 {
                    lemma_pow2_strictly_increases(157, (22 + exponent) as nat);
                }
                assert(256 * one <= value);
                lemma_div_is_ordered(256 * one, value, one);
                lemma_div_by_multiple(256, one);
            }
        }
    }
}

/// A common factor does not change a quotient.
proof fn lemma_truncate_by_factor(a: int, b: int, c: int)
    requires
        b > 0,
        c > 0,
        a >= 0,
    ensures
        (c * a) / (c * b) == a / b,
{
    lemma_mul_strictly_positive(c, b);
    lemma_div_denominator(c * a, c, b);
    lemma_div_multiples_vanish(a, c);
}

/// Among patterns without a sign the smaller one stands for the smaller number.
pub proof fn unsigned_singles_are_ordered(a: Single, b: Single)
    requires
        a.bits <= b.bits < SINGLE_SIGN,
    ensures
        a.value() <= b.value(),
{
    if a.bits < b.bits {
        magnitude_is_strictly_increasing(a.bits as nat, b.bits as nat, 23);
    }
}

/// Among patterns without a sign the smaller one stands for the smaller number.
pub proof fn unsigned_doubles_are_ordered(a: Double, b: Double)
    requires
        a.bits <= b.bits < DOUBLE_SIGN,
    ensures
        a.value() <= b.value(),
{
    if a.bits < b.bits {
        magnitude_is_strictly_increasing(a.bits as nat, b.bits as nat, 52);
    }
}

/// A pattern whose exponent is one higher stands for twice the number, and patterns below
/// the first exponent count one by one.
pub proof fn exponents_double(pattern: nat, width: nat)
    ensures
        pattern >= pow2(width) ==> magnitude(pattern + pow2(width), width) == 2 * magnitude(
            pattern,
            width,
        ),
        pattern <= pow2(width) ==> magnitude(pattern, width) == pattern,
{
    let unit = pow2(width) as int;
    lemma_pow2_pos(width);
    let exponent = pattern as int / unit;
    let fraction = pattern as int % unit;
    lemma_fundamental_div_mod(pattern as int, unit);
    lemma_mod_bound(pattern as int, unit);
    if pattern >= unit {
        lemma_div_is_ordered(unit, pattern as int, unit);
        lemma_div_by_self(unit);
        lemma_div_plus_one(pattern as int, unit);
        lemma_mod_add_multiples_vanish(pattern as int, unit);
        assert((pattern + unit) as int / unit == exponent + 1);
        assert((pattern + unit) as int % unit == fraction);
        lemma_pow2_unfold(exponent as nat);
        let step = pow2((exponent - 1) as nat) as int;
        assert((unit + fraction) * (2 * step) == 2 * ((unit + fraction) * step)) by (nonlinear_arith);
    }
    if pattern < unit {
        lemma_basic_div(pattern as int, unit);
        lemma_small_mod(pattern, unit as nat);
    } else if pattern == unit {
        lemma_div_by_self(unit);
        lemma_mod_self_0(unit);
        lemma2_to64();
        assert(pow2(0) == 1);
        lemma_mul_basics(unit);
    }
}

/// What is no number gives way to the other one where the larger or the smaller of two is
/// asked for, stays as it is where it is kept within a range, comes before and after
/// nothing, and is a byte of zero.
pub proof fn no_number_gives_way(a: Single, b: Single, c: Single)
    requires
        a.not_a_number(),
        !b.not_a_number(),
    ensures
        a.larger(b) == b && b.larger(a) == b,
        a.smaller(b) == b && b.smaller(a) == b,
        a.clamped(b, c) == a,
        !a.precedes(b) && !b.precedes(a) && !a.precedes(a),
        a.byte() == 0,
        a.negated().not_a_number(),
{
}

/// Infinity comes after every finite number and its negative before; both are numbers,
/// and every pattern beyond them is none.
pub proof fn infinity_is_beyond(a: Single)
    ensures
        !single(SINGLE_INFINITY).not_a_number(),
        single((SINGLE_INFINITY + 1) as u32).not_a_number(),
        a.unsigned() < SINGLE_INFINITY ==> a.precedes(single(SINGLE_INFINITY)) && single(
            SINGLE_INFINITY,
        ).negated().precedes(a),
        single(SINGLE_INFINITY).byte() == 255,
{
    magnitude_of_zero(SINGLE_INFINITY as nat, 23);
    if a.unsigned() < SINGLE_INFINITY {
        magnitude_is_strictly_increasing(a.unsigned(), SINGLE_INFINITY as nat, 23);
    }
    lemma_byte(single(SINGLE_INFINITY));
}

/// What is no number gives way among doubles too.
pub proof fn no_double_gives_way(a: Double, b: Double, c: Double)
    requires
        a.not_a_number(),
        !b.not_a_number(),
    ensures
        a.larger(b) == b && b.larger(a) == b,
        a.smaller(b) == b && b.smaller(a) == b,
        a.clamped(b, c) == a,
        !a.precedes(b) && !b.precedes(a) && !a.precedes(a),
        a.negated().not_a_number(),
{
}

} // verus!
