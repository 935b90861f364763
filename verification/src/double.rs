//! IEEE-754 binary64 values, held by their bit pattern.

use vstd::arithmetic::power2::*;
use vstd::bits::*;
use vstd::prelude::*;

verus! {

/// A double-precision value, represented by the 64 bits of its encoding:
/// one sign bit, eleven exponent bits, fifty-two fraction bits.
#[derive(Clone, Copy, Debug, PartialEq, Eq, Structural)]
pub struct Double {
    pub bits: u64,
}

/// Two to the power 52: the weight of the implicit leading bit of a
/// normal value's significand.
pub const HIDDEN_BIT: u64 = 0x10_0000_0000_0000;

/// The exponent field of the value one.
pub const EXPONENT_BIAS: u64 = 1023;

impl Double {
    /// Whether the sign bit is set.
    pub open spec fn negative(self) -> bool {
        self.bits >= 0x8000_0000_0000_0000
    }

    /// The exponent field, biased as stored.
    pub open spec fn exponent(self) -> nat {
        ((self.bits as nat) / (HIDDEN_BIT as nat)) % 0x800
    }

    /// The fraction field.
    pub open spec fn fraction(self) -> nat {
        (self.bits as nat) % (HIDDEN_BIT as nat)
    }

    /// Whether the value is not a number.
    pub open spec fn is_nan(self) -> bool {
        self.exponent() == 0x7ff && self.fraction() != 0
    }

    /// The value rounded toward zero and brought into the range of `u64`:
    /// zero for a value that is negative, not a number, or below one;
    /// `u64::MAX` for a value of two to the 64 or more, infinity included;
    /// otherwise the integer part of `significand * 2^(exponent - 52)`.
    pub open spec fn truncated(self) -> nat {
        let exponent = self.exponent();
        let significand = HIDDEN_BIT as nat + self.fraction();
        if self.negative() || self.is_nan() || exponent < EXPONENT_BIAS {
            0
        } else if exponent >= EXPONENT_BIAS + 64 {
            u64::MAX as nat
        } else if exponent >= EXPONENT_BIAS + 52 {
            significand * pow2((exponent - EXPONENT_BIAS - 52) as nat)
        } else {
            significand / pow2((EXPONENT_BIAS + 52 - exponent) as nat)
        }
    }

    /// The value with the given encoding.
    pub fn from_bits(bits: u64) -> (d: Double)
        ensures
            d.bits == bits,
    {
        Double { bits }
    }

    /// The encoding of the value.
    pub fn to_bits(self) -> (bits: u64)
        ensures
            bits == self.bits,
    {
        self.bits
    }

    /// Converts to an unsigned integer: the fractional part is dropped and
    /// what lies outside the integer's range becomes the nearest bound.
    pub fn to_u64(self) -> (n: u64)
        ensures
            n == self.truncated(),
    {
        let exponent: u64 = (self.bits / HIDDEN_BIT) % 0x800;
        let fraction: u64 = self.bits % HIDDEN_BIT;
        if self.bits >= 0x8000_0000_0000_0000 || exponent < EXPONENT_BIAS {
            return 0;
        }
        if exponent == 0x7ff && fraction != 0 {
            return 0;
        }
        if exponent >= EXPONENT_BIAS + 64 {
            return u64::MAX;
        }
        let significand: u64 = HIDDEN_BIT + fraction;
        if exponent >= EXPONENT_BIAS + 52 {
            let shift: u64 = exponent - EXPONENT_BIAS - 52;
            proof {
                lemma_scaled_significand_fits(significand, shift);
                lemma_u64_shl_is_mul(significand, shift);
            }
            significand << shift
        } else {
            let shift: u64 = EXPONENT_BIAS + 52 - exponent;
            proof {
                lemma_u64_shr_is_div(significand, shift);
            }
            significand >> shift
        }
    }
}

/// A significand below two to the 53, scaled by at most two to the 11,
/// stays below two to the 64.
proof fn lemma_scaled_significand_fits(significand: u64, shift: u64)
    requires
        significand < 2 * HIDDEN_BIT,
        shift <= 11,
    ensures
        significand * pow2(shift as nat) <= u64::MAX,
{
    lemma2_to64();
    lemma_pow2_pos(shift as nat);
    if shift < 11 {
        lemma_pow2_strictly_increases(shift as nat, 11);
    }
    assert(pow2(shift as nat) <= 2048);
    assert(significand * pow2(shift as nat) <= 0x1f_ffff_ffff_ffff * 2048) by (nonlinear_arith)
        requires
            significand <= 0x1f_ffff_ffff_ffff,
            0 < pow2(shift as nat) <= 2048,
    ;
}

} // verus!
