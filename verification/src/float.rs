//! Floating-point numbers as their bit patterns.
//!
//! The numbers are carried, not computed with: a value is the bits that the
//! file held. The one reading that the library needs itself is the whole
//! part of a double, for the offsets and sizes that the format keeps as
//! doubles.

use vstd::prelude::*;
use vstd::arithmetic::power2::{
    lemma2_to64, lemma_pow2_pos, lemma_pow2_strictly_increases, pow2,
};
use vstd::bits::{lemma_u64_shl_is_mul, lemma_u64_shr_is_div};

verus! {

/// An IEEE 754 single-precision number, held as its 32 bits.
#[derive(Clone, Copy, Debug, PartialEq, Eq, Structural)]
pub struct Float32 {
    pub bits: u32,
}

/// An IEEE 754 double-precision number, held as its 64 bits: the sign, eleven
/// bits of exponent and 52 bits of fraction.
#[derive(Clone, Copy, Debug, PartialEq, Eq, Structural)]
pub struct Float64 {
    pub bits: u64,
}

/// Two to the power 52: the weight of a double's hidden bit.
pub const HIDDEN_BIT: u64 = 0x10_0000_0000_0000;

/// Two to the power 63: the sign bit of a double.
pub const SIGN_BIT: u64 = 0x8000_0000_0000_0000;

/// The exponent field of infinities and of values that are no numbers.
pub const EXPONENT_SPECIAL: u64 = 2047;

/// The exponent field of the numbers from one up to two.
pub const EXPONENT_ONE: u64 = 1023;

/// The exponent field at which the fraction's last bit weighs one.
pub const EXPONENT_WHOLE: u64 = 1075;

impl Float32 {
    /// The number with the given bit pattern.
    pub fn from_bits(bits: u32) -> (x: Self)
        ensures
            x.bits == bits,
    {
        Float32 { bits }
    }

    /// The number's bit pattern.
    pub fn to_bits(self) -> (bits: u32)
        ensures
            bits == self.bits,
    {
        self.bits
    }
}

impl Float64 {
    /// Whether the sign bit is set.
    pub open spec fn spec_negative(self) -> bool {
        self.bits >= SIGN_BIT
    }

    /// The exponent field.
    pub open spec fn spec_exponent(self) -> nat {
        ((self.bits / HIDDEN_BIT) % 2048) as nat
    }

    /// The fraction field.
    pub open spec fn spec_fraction(self) -> nat {
        (self.bits % HIDDEN_BIT) as nat
    }

    /// Whether the value is no number.
    pub open spec fn spec_is_nan(self) -> bool {
        self.spec_exponent() == EXPONENT_SPECIAL && self.spec_fraction() != 0
    }

    /// Whether the value is an infinity.
    pub open spec fn spec_is_infinite(self) -> bool {
        self.spec_exponent() == EXPONENT_SPECIAL && self.spec_fraction() == 0
    }

    /// The whole part of the magnitude of a finite number. A number of
    /// exponent field `e` at or above 1023 has the magnitude of its fraction
    /// with the hidden bit before it, times two to the power `e - 1075`;
    /// below that the magnitude is less than one.
    pub open spec fn spec_whole(self) -> nat {
        let e = self.spec_exponent();
        let m = HIDDEN_BIT as nat + self.spec_fraction();
        if e < EXPONENT_ONE {
            0
        } else if e < EXPONENT_WHOLE {
            m / pow2((EXPONENT_WHOLE - e) as nat)
        } else {
            m * pow2((e - EXPONENT_WHOLE) as nat)
        }
    }

    /// The number as a count of bytes: its whole part, where that fits; zero
    /// for a negative number and for what is no number; the largest count
    /// for what is beyond it.
    pub open spec fn spec_to_usize(self) -> usize {
        if self.spec_is_nan() || self.spec_negative() {
            0
        } else if self.spec_is_infinite() || self.spec_whole() > usize::MAX {
            usize::MAX
        } else {
            self.spec_whole() as usize
        }
    }

    /// The number with the given bit pattern.
    pub fn from_bits(bits: u64) -> (x: Self)
        ensures
            x.bits == bits,
    {
        Float64 { bits }
    }

    /// The number's bit pattern.
    pub fn to_bits(self) -> (bits: u64)
        ensures
            bits == self.bits,
    {
        self.bits
    }

    /// The number as a count of bytes, rounded towards zero and held within
    /// the range of counts.
    pub fn to_usize(self) -> (n: usize)
        ensures
            n == self.spec_to_usize(),
    {
        let negative = self.bits >= SIGN_BIT;
        let exponent = (self.bits / HIDDEN_BIT) % 2048;
        let fraction = self.bits % HIDDEN_BIT;
        if exponent == EXPONENT_SPECIAL {
            return if fraction != 0 || negative {
                0
            } else {
                usize::MAX
            };
        }
        if negative || exponent < EXPONENT_ONE {
            return 0;
        }
        let m: u64 = HIDDEN_BIT + fraction;
        let whole: u64 = if exponent < EXPONENT_WHOLE {
            let shift = EXPONENT_WHOLE - exponent;
            proof {
                lemma_u64_shr_is_div(m, shift);
            }
            m >> shift
        } else {
            let shift = exponent - EXPONENT_WHOLE;
            proof {
                lemma2_to64();
                lemma_pow2_pos(shift as nat);
            }
            if shift > 11 {
                proof {
                    if shift > 12 {
                        lemma_pow2_strictly_increases(12, shift as nat);
                    }
                    assert(m * pow2(shift as nat) >= 0x1_0000_0000_0000_0000) by (nonlinear_arith)
                        requires
                            m >= 0x10_0000_0000_0000,
                            pow2(shift as nat) >= 0x1000,
                    ;
                }
                return usize::MAX;
            }
            proof {
                if shift < 11 {
                    lemma_pow2_strictly_increases(shift as nat, 11);
                }
                assert(m * pow2(shift as nat) <= 0xffff_ffff_ffff_f800) by (nonlinear_arith)
                    requires
                        m <= 0x1f_ffff_ffff_ffff,
                        0 < pow2(shift as nat) <= 0x800,
                ;
                lemma_u64_shl_is_mul(m, shift);
            }
            m << shift
        };
        if whole > usize::MAX as u64 {
            usize::MAX
        } else {
            whole as usize
        }
    }
}

} // verus!
