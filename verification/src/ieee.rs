//! Reading IEEE 754 bit patterns with integers alone.
//!
//! A finite binary32 value is a whole number of steps of 2^-149, a finite
//! binary64 value a whole number of steps of 2^-1074. Counting in those
//! steps keeps every amplitude an exact integer. An infinity is counted as
//! the power of two just above the largest finite value (2^128 and 2^1024),
//! which is what its bit pattern would mean if it were an ordinary number.

use vstd::prelude::*;
use vstd::arithmetic::power2::pow2;

verus! {

/// Steps of a binary32 value per unit: a value `v` is `v * 2^149` steps.
pub const F32_POINT: u32 = 149;

/// Steps of a binary64 value per unit: a value `v` is `v * 2^1074` steps.
pub const F64_POINT: u32 = 1074;

/// A bit pattern taken apart: the value is `significand * 2^shift` steps,
/// negated where `negative` is set. Where `nan` is set it is not a number,
/// and the other fields still say what the bits hold.
#[derive(Clone, Copy, Debug, PartialEq, Eq, Structural)]
pub struct Decoded {
    pub nan: bool,
    pub negative: bool,
    pub significand: u64,
    pub shift: u32,
}

impl Decoded {
    /// The absolute value, in steps.
    pub open spec fn magnitude(self) -> nat {
        self.significand as nat * pow2(self.shift as nat)
    }

    /// The value, in steps.
    pub open spec fn steps(self) -> int {
        if self.negative {
            -(self.magnitude() as int)
        } else {
            self.magnitude() as int
        }
    }

    /// What decoding guarantees: at most 53 significant bits, a shift no
    /// larger than the widest format allows, and a leading bit at position
    /// 23 or above for every value that is not subnormal.
    pub open spec fn well_formed(self) -> bool {
        &&& self.significand < 0x20_0000_0000_0000
        &&& self.shift <= 2046
        &&& (self.shift > 0 ==> self.significand >= 0x80_0000)
    }
}

/// The sign bit of a binary32 pattern.
pub open spec fn f32_negative(bits: u32) -> bool {
    bits >= 0x8000_0000
}

/// The biased exponent of a binary32 pattern: bits 23 to 30.
pub open spec fn f32_exponent(bits: u32) -> nat {
    ((bits / 0x80_0000) % 256) as nat
}

/// The fraction of a binary32 pattern: bits 0 to 22.
pub open spec fn f32_fraction(bits: u32) -> nat {
    (bits % 0x80_0000) as nat
}

/// Whether a binary32 pattern is not a number.
pub open spec fn f32_is_nan(bits: u32) -> bool {
    f32_exponent(bits) == 255 && f32_fraction(bits) != 0
}

/// The significand of a binary32 pattern: the fraction, with the implicit
/// leading bit unless the value is subnormal.
pub open spec fn f32_significand(bits: u32) -> nat {
    if f32_exponent(bits) == 0 {
        f32_fraction(bits)
    } else {
        0x80_0000 + f32_fraction(bits)
    }
}

/// The power of two by which the significand of a binary32 pattern is
/// multiplied to give steps of 2^-149.
pub open spec fn f32_shift(bits: u32) -> nat {
    if f32_exponent(bits) == 0 {
        0
    } else {
        (f32_exponent(bits) - 1) as nat
    }
}

/// The absolute value of a binary32 pattern in steps of 2^-149.
pub open spec fn f32_magnitude(bits: u32) -> nat {
    f32_significand(bits) * pow2(f32_shift(bits))
}

/// The value of a binary32 pattern in steps of 2^-149.
pub open spec fn f32_steps(bits: u32) -> int {
    if f32_negative(bits) {
        -(f32_magnitude(bits) as int)
    } else {
        f32_magnitude(bits) as int
    }
}

/// The sign bit of a binary64 pattern.
pub open spec fn f64_negative(bits: u64) -> bool {
    bits >= 0x8000_0000_0000_0000
}

/// The biased exponent of a binary64 pattern: bits 52 to 62.
pub open spec fn f64_exponent(bits: u64) -> nat {
    ((bits / 0x10_0000_0000_0000) % 2048) as nat
}

/// The fraction of a binary64 pattern: bits 0 to 51.
pub open spec fn f64_fraction(bits: u64) -> nat {
    (bits % 0x10_0000_0000_0000) as nat
}

/// Whether a binary64 pattern is not a number.
pub open spec fn f64_is_nan(bits: u64) -> bool {
    f64_exponent(bits) == 2047 && f64_fraction(bits) != 0
}

/// The significand of a binary64 pattern: the fraction, with the implicit
/// leading bit unless the value is subnormal.
pub open spec fn f64_significand(bits: u64) -> nat {
    if f64_exponent(bits) == 0 {
        f64_fraction(bits)
    } else {
        0x10_0000_0000_0000 + f64_fraction(bits)
    }
}

/// The power of two by which the significand of a binary64 pattern is
/// multiplied to give steps of 2^-1074.
pub open spec fn f64_shift(bits: u64) -> nat {
    if f64_exponent(bits) == 0 {
        0
    } else {
        (f64_exponent(bits) - 1) as nat
    }
}

/// The absolute value of a binary64 pattern in steps of 2^-1074.
pub open spec fn f64_magnitude(bits: u64) -> nat {
    f64_significand(bits) * pow2(f64_shift(bits))
}

/// The value of a binary64 pattern in steps of 2^-1074.
pub open spec fn f64_steps(bits: u64) -> int {
    if f64_negative(bits) {
        -(f64_magnitude(bits) as int)
    } else {
        f64_magnitude(bits) as int
    }
}

/// Takes a binary32 pattern apart.
pub fn decode_f32(bits: u32) -> (d: Decoded)
    ensures
        d.well_formed(),
        d.nan == f32_is_nan(bits),
        d.negative == f32_negative(bits),
        d.significand == f32_significand(bits),
        d.shift == f32_shift(bits),
        d.steps() == f32_steps(bits),
        d.significand < 0x100_0000,
        d.shift <= 254,
{
    let exponent: u32 = (bits / 0x80_0000) % 256;
    let fraction: u32 = bits % 0x80_0000;
    let negative: bool = bits >= 0x8000_0000;
    if exponent == 0 {
        Decoded { nan: false, negative, significand: fraction as u64, shift: 0 }
    } else {
        Decoded {
            nan: exponent == 255 && fraction != 0,
            negative,
            significand: 0x80_0000u64 + fraction as u64,
            shift: exponent - 1,
        }
    }
}

/// Takes a binary64 pattern apart.
pub fn decode_f64(bits: u64) -> (d: Decoded)
    ensures
        d.well_formed(),
        d.nan == f64_is_nan(bits),
        d.negative == f64_negative(bits),
        d.significand == f64_significand(bits),
        d.shift == f64_shift(bits),
        d.steps() == f64_steps(bits),
{
    let exponent: u64 = (bits / 0x10_0000_0000_0000) % 2048;
    let fraction: u64 = bits % 0x10_0000_0000_0000;
    let negative: bool = bits >= 0x8000_0000_0000_0000;
    if exponent == 0 {
        Decoded { nan: false, negative, significand: fraction, shift: 0 }
    } else {
        Decoded {
            nan: exponent == 2047 && fraction != 0,
            negative,
            significand: 0x10_0000_0000_0000u64 + fraction,
            shift: (exponent - 1) as u32,
        }
    }
}

} // verus!
