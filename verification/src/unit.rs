//! The arithmetic that the library is written over.
//!
//! Every rounded operation on [`Single`] and [`Double`] goes through a
//! [`FloatUnit`], which the caller makes from a function that evaluates one
//! operation. What the library computes is stated as an expression over the
//! results of that function.

use crate::number::{Double, Single};
use vstd::prelude::*;

verus! {

/// One operation of the arithmetic. Operands and results are patterns; a single
/// stands in the low half of a word.
#[derive(Clone, Copy, Debug, PartialEq, Eq, Structural)]
pub enum Op {
    /// Sum of two singles.
    Add,
    /// Difference of two singles.
    Sub,
    /// Product of two singles.
    Mul,
    /// Quotient of two singles.
    Div,
    /// Square root of a single.
    Sqrt,
    /// Sine of a single, in radians.
    Sin,
    /// Cosine of a single, in radians.
    Cos,
    /// Arctangent of a single, in radians.
    Atan,
    /// A single from degrees to radians.
    Radians,
    /// A number of nanoseconds as seconds, in single precision.
    Seconds,
    /// Single-precision seconds as a whole number of nanoseconds.
    Nanos,
    /// Sum of two doubles.
    AddWide,
    /// Difference of two doubles.
    SubWide,
    /// Product of two doubles.
    MulWide,
    /// Quotient of two doubles.
    DivWide,
    /// Sine of a double, in radians.
    SinWide,
    /// Cosine of a double, in radians.
    CosWide,
    /// An unsigned whole number as a double.
    Count,
    /// A signed whole number, as two's complement, as a double.
    Integer,
    /// A single as a double.
    Widen,
    /// A double rounded to a single.
    Narrow,
    /// Three-dimensional gradient noise of the table that grows from `seed`, at
    /// the two double operands and zero.
    Noise { seed: u32 },
    /// The fibre direction that grows from the first operand as a seed: a double
    /// angle in radians, from zero up to half a turn.
    FiberAngle,
}

/// Whether a function answers every operation, always in the same way.
pub open spec fn single_valued<F: Fn(Op, u64, u64) -> u64>(eval: F) -> bool {
    &&& forall|op: Op, a: u64, b: u64| call_requires(eval, (op, a, b))
    &&& forall|op: Op, a: u64, b: u64, r: u64, s: u64|
        call_ensures(eval, (op, a, b), r) && call_ensures(eval, (op, a, b), s) ==> r == s
}

/// An arithmetic unit: the rounded operations, evaluated by a function of the
/// caller.
pub struct FloatUnit<F: Fn(Op, u64, u64) -> u64> {
    eval: F,
}

impl<F: Fn(Op, u64, u64) -> u64> FloatUnit<F> {
    #[verifier::type_invariant]
    spec fn answers_once(self) -> bool {
        single_valued(self.eval)
    }

    /// What the unit answers.
    pub closed spec fn result(self, op: Op, a: u64, b: u64) -> u64 {
        choose|r: u64| call_ensures(self.eval, (op, a, b), r)
    }

    /// A unit that answers as `eval` does.
    pub fn new(eval: F) -> (unit: Self)
        requires
            single_valued(eval),
        ensures
            forall|op: Op, a: u64, b: u64, r: u64|
                #![trigger call_ensures(eval, (op, a, b), r)]
                call_ensures(eval, (op, a, b), r) ==> r == unit.result(op, a, b),
    {
        FloatUnit { eval }
    }

    fn run(&self, op: Op, a: u64, b: u64) -> (r: u64)
        ensures
            r == self.result(op, a, b),
    {
        proof {
            use_type_invariant(self);
        }
        (self.eval)(op, a, b)
    }

    /// Sum of two singles.
    pub open spec fn plus(self, a: Single, b: Single) -> Single {
        Single { bits: self.result(Op::Add, a.bits as u64, b.bits as u64) as u32 }
    }

    /// Sum of two singles.
    pub fn add(&self, a: Single, b: Single) -> (r: Single)
        ensures
            r == self.plus(a, b),
    {
        Single { bits: self.run(Op::Add, a.bits as u64, b.bits as u64) as u32 }
    }

    /// Difference of two singles.
    pub open spec fn minus(self, a: Single, b: Single) -> Single {
        Single { bits: self.result(Op::Sub, a.bits as u64, b.bits as u64) as u32 }
    }

    /// Difference of two singles.
    pub fn sub(&self, a: Single, b: Single) -> (r: Single)
        ensures
            r == self.minus(a, b),
    {
        Single { bits: self.run(Op::Sub, a.bits as u64, b.bits as u64) as u32 }
    }

    /// Product of two singles.
    pub open spec fn times(self, a: Single, b: Single) -> Single {
        Single { bits: self.result(Op::Mul, a.bits as u64, b.bits as u64) as u32 }
    }

    /// Product of two singles.
    pub fn mul(&self, a: Single, b: Single) -> (r: Single)
        ensures
            r == self.times(a, b),
    {
        Single { bits: self.run(Op::Mul, a.bits as u64, b.bits as u64) as u32 }
    }

    /// Quotient of two singles.
    pub open spec fn over(self, a: Single, b: Single) -> Single {
        Single { bits: self.result(Op::Div, a.bits as u64, b.bits as u64) as u32 }
    }

    /// Quotient of two singles.
    pub fn div(&self, a: Single, b: Single) -> (r: Single)
        ensures
            r == self.over(a, b),
    {
        Single { bits: self.run(Op::Div, a.bits as u64, b.bits as u64) as u32 }
    }

    /// Square root of a single.
    pub open spec fn root(self, a: Single) -> Single {
        Single { bits: self.result(Op::Sqrt, a.bits as u64, 0) as u32 }
    }

    /// Square root of a single.
    pub fn sqrt(&self, a: Single) -> (r: Single)
        ensures
            r == self.root(a),
    {
        Single { bits: self.run(Op::Sqrt, a.bits as u64, 0) as u32 }
    }

    /// Sine of a single, in radians.
    pub open spec fn sine(self, a: Single) -> Single {
        Single { bits: self.result(Op::Sin, a.bits as u64, 0) as u32 }
    }

    /// Sine of a single, in radians.
    pub fn sin(&self, a: Single) -> (r: Single)
        ensures
            r == self.sine(a),
    {
        Single { bits: self.run(Op::Sin, a.bits as u64, 0) as u32 }
    }

    /// Cosine of a single, in radians.
    pub open spec fn cosine(self, a: Single) -> Single {
        Single { bits: self.result(Op::Cos, a.bits as u64, 0) as u32 }
    }

    /// Cosine of a single, in radians.
    pub fn cos(&self, a: Single) -> (r: Single)
        ensures
            r == self.cosine(a),
    {
        Single { bits: self.run(Op::Cos, a.bits as u64, 0) as u32 }
    }

    /// Arctangent of a single, in radians.
    pub open spec fn arctangent(self, a: Single) -> Single {
        Single { bits: self.result(Op::Atan, a.bits as u64, 0) as u32 }
    }

    /// Arctangent of a single, in radians.
    pub fn atan(&self, a: Single) -> (r: Single)
        ensures
            r == self.arctangent(a),
    {
        Single { bits: self.run(Op::Atan, a.bits as u64, 0) as u32 }
    }

    /// A single from degrees to radians.
    pub open spec fn in_radians(self, a: Single) -> Single {
        Single { bits: self.result(Op::Radians, a.bits as u64, 0) as u32 }
    }

    /// A single from degrees to radians.
    pub fn radians(&self, a: Single) -> (r: Single)
        ensures
            r == self.in_radians(a),
    {
        Single { bits: self.run(Op::Radians, a.bits as u64, 0) as u32 }
    }

    /// A number of nanoseconds as seconds, in single precision.
    pub open spec fn in_seconds(self, nanos: u64) -> Single {
        Single { bits: self.result(Op::Seconds, nanos, 0) as u32 }
    }

    /// A number of nanoseconds as seconds, in single precision.
    pub fn seconds(&self, nanos: u64) -> (r: Single)
        ensures
            r == self.in_seconds(nanos),
    {
        Single { bits: self.run(Op::Seconds, nanos, 0) as u32 }
    }

    /// Single-precision seconds as a whole number of nanoseconds.
    pub open spec fn in_nanos(self, seconds: Single) -> u64 {
        self.result(Op::Nanos, seconds.bits as u64, 0)
    }

    /// Single-precision seconds as a whole number of nanoseconds.
    pub fn nanos(&self, seconds: Single) -> (r: u64)
        ensures
            r == self.in_nanos(seconds),
    {
        self.run(Op::Nanos, seconds.bits as u64, 0)
    }

    /// Sum of two doubles.
    pub open spec fn plus_wide(self, a: Double, b: Double) -> Double {
        Double { bits: self.result(Op::AddWide, a.bits, b.bits) }
    }

    /// Sum of two doubles.
    pub fn add_wide(&self, a: Double, b: Double) -> (r: Double)
        ensures
            r == self.plus_wide(a, b),
    {
        Double { bits: self.run(Op::AddWide, a.bits, b.bits) }
    }

    /// Difference of two doubles.
    pub open spec fn minus_wide(self, a: Double, b: Double) -> Double {
        Double { bits: self.result(Op::SubWide, a.bits, b.bits) }
    }

    /// Difference of two doubles.
    pub fn sub_wide(&self, a: Double, b: Double) -> (r: Double)
        ensures
            r == self.minus_wide(a, b),
    {
        Double { bits: self.run(Op::SubWide, a.bits, b.bits) }
    }

    /// Product of two doubles.
    pub open spec fn times_wide(self, a: Double, b: Double) -> Double {
        Double { bits: self.result(Op::MulWide, a.bits, b.bits) }
    }

    /// Product of two doubles.
    pub fn mul_wide(&self, a: Double, b: Double) -> (r: Double)
        ensures
            r == self.times_wide(a, b),
    {
        Double { bits: self.run(Op::MulWide, a.bits, b.bits) }
    }

    /// Quotient of two doubles.
    pub open spec fn over_wide(self, a: Double, b: Double) -> Double {
        Double { bits: self.result(Op::DivWide, a.bits, b.bits) }
    }

    /// Quotient of two doubles.
    pub fn div_wide(&self, a: Double, b: Double) -> (r: Double)
        ensures
            r == self.over_wide(a, b),
    {
        Double { bits: self.run(Op::DivWide, a.bits, b.bits) }
    }

    /// Sine of a double, in radians.
    pub open spec fn sine_wide(self, a: Double) -> Double {
        Double { bits: self.result(Op::SinWide, a.bits, 0) }
    }

    /// Sine of a double, in radians.
    pub fn sin_wide(&self, a: Double) -> (r: Double)
        ensures
            r == self.sine_wide(a),
    {
        Double { bits: self.run(Op::SinWide, a.bits, 0) }
    }

    /// Cosine of a double, in radians.
    pub open spec fn cosine_wide(self, a: Double) -> Double {
        Double { bits: self.result(Op::CosWide, a.bits, 0) }
    }

    /// Cosine of a double, in radians.
    pub fn cos_wide(&self, a: Double) -> (r: Double)
        ensures
            r == self.cosine_wide(a),
    {
        Double { bits: self.run(Op::CosWide, a.bits, 0) }
    }

    /// An unsigned whole number as a double.
    pub open spec fn counted(self, n: u32) -> Double {
        Double { bits: self.result(Op::Count, n as u64, 0) }
    }

    /// An unsigned whole number as a double.
    pub fn count(&self, n: u32) -> (r: Double)
        ensures
            r == self.counted(n),
    {
        Double { bits: self.run(Op::Count, n as u64, 0) }
    }

    /// A signed whole number, as two's complement, as a double.
    pub open spec fn as_double(self, n: i32) -> Double {
        Double { bits: self.result(Op::Integer, (n as i64) as u64, 0) }
    }

    /// A signed whole number, as two's complement, as a double.
    pub fn integer(&self, n: i32) -> (r: Double)
        ensures
            r == self.as_double(n),
    {
        Double { bits: self.run(Op::Integer, (n as i64) as u64, 0) }
    }

    /// A single as a double.
    pub open spec fn widened(self, a: Single) -> Double {
        Double { bits: self.result(Op::Widen, a.bits as u64, 0) }
    }

    /// A single as a double.
    pub fn widen(&self, a: Single) -> (r: Double)
        ensures
            r == self.widened(a),
    {
        Double { bits: self.run(Op::Widen, a.bits as u64, 0) }
    }

    /// A double rounded to a single.
    pub open spec fn narrowed(self, a: Double) -> Single {
        Single { bits: self.result(Op::Narrow, a.bits, 0) as u32 }
    }

    /// A double rounded to a single.
    pub fn narrow(&self, a: Double) -> (r: Single)
        ensures
            r == self.narrowed(a),
    {
        Single { bits: self.run(Op::Narrow, a.bits, 0) as u32 }
    }

    /// Gradient noise of the table that grows from `seed`, at `(x, y, 0)`.
    pub open spec fn noise_at(self, seed: u32, x: Double, y: Double) -> Double {
        Double { bits: self.result(Op::Noise { seed }, x.bits, y.bits) }
    }

    /// Gradient noise of the table that grows from `seed`, at `(x, y, 0)`.
    pub fn noise(&self, seed: u32, x: Double, y: Double) -> (r: Double)
        ensures
            r == self.noise_at(seed, x, y),
    {
        Double { bits: self.run(Op::Noise { seed }, x.bits, y.bits) }
    }

    /// The fibre direction that grows from `seed`, in radians.
    pub open spec fn fiber_angle_of(self, seed: u32) -> Double {
        Double { bits: self.result(Op::FiberAngle, seed as u64, 0) }
    }

    /// The fibre direction that grows from `seed`, in radians.
    pub fn fiber_angle(&self, seed: u32) -> (r: Double)
        ensures
            r == self.fiber_angle_of(seed),
    {
        Double { bits: self.run(Op::FiberAngle, seed as u64, 0) }
    }
}

/// Each operation is answered by the evaluator under its own name, with its operands in
/// the order in which they are given.
pub proof fn operations_go_by_their_names<F: Fn(Op, u64, u64) -> u64>(
    unit: FloatUnit<F>,
    a: Single,
    b: Single,
    x: Double,
    y: Double,
    n: u32,
    m: i32,
    nanos: u64,
)
    ensures
        unit.plus(a, b).bits == unit.result(Op::Add, a.bits as u64, b.bits as u64) as u32,
        unit.minus(a, b).bits == unit.result(Op::Sub, a.bits as u64, b.bits as u64) as u32,
        unit.times(a, b).bits == unit.result(Op::Mul, a.bits as u64, b.bits as u64) as u32,
        unit.over(a, b).bits == unit.result(Op::Div, a.bits as u64, b.bits as u64) as u32,
        unit.root(a).bits == unit.result(Op::Sqrt, a.bits as u64, 0) as u32,
        unit.sine(a).bits == unit.result(Op::Sin, a.bits as u64, 0) as u32,
        unit.cosine(a).bits == unit.result(Op::Cos, a.bits as u64, 0) as u32,
        unit.arctangent(a).bits == unit.result(Op::Atan, a.bits as u64, 0) as u32,
        unit.in_radians(a).bits == unit.result(Op::Radians, a.bits as u64, 0) as u32,
        unit.in_seconds(nanos).bits == unit.result(Op::Seconds, nanos, 0) as u32,
        unit.in_nanos(a) == unit.result(Op::Nanos, a.bits as u64, 0),
        unit.plus_wide(x, y).bits == unit.result(Op::AddWide, x.bits, y.bits),
        unit.minus_wide(x, y).bits == unit.result(Op::SubWide, x.bits, y.bits),
        unit.times_wide(x, y).bits == unit.result(Op::MulWide, x.bits, y.bits),
        unit.over_wide(x, y).bits == unit.result(Op::DivWide, x.bits, y.bits),
        unit.sine_wide(x).bits == unit.result(Op::SinWide, x.bits, 0),
        unit.cosine_wide(x).bits == unit.result(Op::CosWide, x.bits, 0),
        unit.counted(n).bits == unit.result(Op::Count, n as u64, 0),
        unit.as_double(m).bits == unit.result(Op::Integer, (m as i64) as u64, 0),
        unit.widened(a).bits == unit.result(Op::Widen, a.bits as u64, 0),
        unit.narrowed(x).bits == unit.result(Op::Narrow, x.bits, 0) as u32,
        unit.noise_at(n, x, y).bits == unit.result((Op::Noise { seed: n }), x.bits, y.bits),
        unit.fiber_angle_of(n).bits == unit.result(Op::FiberAngle, n as u64, 0),
{
}

} // verus!
