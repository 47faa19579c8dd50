//! Constants by their bit patterns: angles are in radians, and a number that
//! the format cannot hold stands for the nearest one that it can.

use vstd::prelude::*;

verus! {

/// 0, in single precision.
pub const ZERO: u32 = 0x0000_0000;

/// 1, in single precision.
pub const ONE: u32 = 0x3F80_0000;

/// 2, in single precision.
pub const TWO: u32 = 0x4000_0000;

/// 1/2, in single precision.
pub const HALF: u32 = 0x3F00_0000;

/// 1000, in single precision.
pub const THOUSAND: u32 = 0x447A_0000;

/// 60, in single precision.
pub const SIXTY: u32 = 0x4270_0000;

/// 0.1, in single precision.
pub const TENTH: u32 = 0x3DCC_CCCD;

/// 0.01, in single precision.
pub const HUNDREDTH: u32 = 0x3C23_D70A;

/// 0.0001, in single precision.
pub const TEN_THOUSANDTH: u32 = 0x38D1_B717;

/// 0.000001, in single precision.
pub const MILLIONTH: u32 = 0x3586_37BD;

/// 0.2, in single precision.
pub const TWO_TENTHS: u32 = 0x3E4C_CCCD;

/// 0.3, in single precision.
pub const THREE_TENTHS: u32 = 0x3E99_999A;

/// 0.7, in single precision.
pub const SEVEN_TENTHS: u32 = 0x3F33_3333;

/// 0.8, in single precision.
pub const EIGHT_TENTHS: u32 = 0x3F4C_CCCD;

/// The angle of a full turn, in single precision.
pub const FULL_TURN: u32 = 0x40C9_0FDB;

/// The angle of a quarter turn, in single precision.
pub const QUARTER_TURN: u32 = 0x3FC9_0FDB;

/// The angle of a sixth of a turn, in single precision.
pub const SIXTH_TURN: u32 = 0x3F86_0A92;

/// The angle of an eighth of a turn, in single precision.
pub const EIGHTH_TURN: u32 = 0x3F49_0FDB;

/// 2.5, in single precision.
pub const TWO_AND_A_HALF: u32 = 0x4020_0000;

/// 255, in single precision.
pub const BYTE_MAX: u32 = 0x437F_0000;

/// 0, in double precision.
pub const WIDE_ZERO: u64 = 0x0000_0000_0000_0000;

/// 1, in double precision.
pub const WIDE_ONE: u64 = 0x3FF0_0000_0000_0000;

/// 2, in double precision.
pub const WIDE_TWO: u64 = 0x4000_0000_0000_0000;

/// 3, in double precision.
pub const WIDE_THREE: u64 = 0x4008_0000_0000_0000;

/// 1/2, in double precision.
pub const WIDE_HALF: u64 = 0x3FE0_0000_0000_0000;

/// 0.1, in double precision.
pub const WIDE_TENTH: u64 = 0x3FB9_9999_9999_999A;

} // verus!
