//! Charge levels and thresholds.

use vstd::prelude::*;

verus! {

/// The bit pattern of `1.0` as an IEEE-754 single-precision number.
pub const ONE_BITS: u32 = 0x3F80_0000;

/// The bit pattern of `-0.0`, which compares equal to zero.
pub const NEGATIVE_ZERO_BITS: u32 = 0x8000_0000;

/// A fraction between zero and one, both included: a state of charge or a
/// threshold. It is held as the bit pattern of the single-precision number
/// that stands for it. For numbers that are not negative the unsigned order
/// of the bit patterns is the numeric order, so fractions are compared as
/// integers.
#[derive(Clone, Copy, Debug)]
pub struct Fraction {
    bits: u32,
}

impl Fraction {
    /// The bit pattern, at most that of `1.0`.
    pub closed spec fn key(self) -> nat {
        self.bits as nat
    }

    #[verifier::type_invariant]
    spec fn in_unit_range(self) -> bool {
        self.bits <= ONE_BITS
    }

    /// Whether a single-precision bit pattern stands for a number between
    /// zero and one. Negative zero counts as zero; every other pattern with
    /// the sign bit set, every pattern above that of `1.0`, infinities and
    /// NaNs are outside.
    pub open spec fn valid_bits(bits: u32) -> bool {
        bits <= ONE_BITS || bits == NEGATIVE_ZERO_BITS
    }

    /// The key under which a valid bit pattern is kept.
    pub open spec fn key_of_bits(bits: u32) -> nat {
        if bits == NEGATIVE_ZERO_BITS {
            0
        } else {
            bits as nat
        }
    }

    /// The fraction that a single-precision bit pattern stands for, if it
    /// stands for one.
    pub fn from_bits(bits: u32) -> (r: Option<Fraction>)
        ensures
            r is Some <==> Self::valid_bits(bits),
            r matches Some(f) ==> f.key() == Self::key_of_bits(bits),
    {
        if bits <= ONE_BITS {
            Some(Fraction { bits })
        } else if bits == NEGATIVE_ZERO_BITS {
            Some(Fraction { bits: 0 })
        } else {
            None
        }
    }

    /// The bit pattern of the fraction.
    pub fn to_bits(&self) -> (bits: u32)
        ensures
            bits == self.key(),
            bits <= ONE_BITS,
    {
        proof {
            use_type_invariant(self);
        }
        self.bits
    }

    /// Whether the fraction is less than `other`.
    pub fn lt(&self, other: &Fraction) -> (r: bool)
        ensures
            r == (self.key() < other.key()),
    {
        self.bits < other.bits
    }
}

} // verus!
