//! Double-precision numbers, held by the bits of their IEEE 754 encoding. Nothing is computed with
//! them here; they are only compared.
use vstd::prelude::*;

verus! {

/// A double-precision number.
#[derive(Clone, Copy, Debug, PartialEq, Eq, Structural)]
pub struct Double {
    pub bits: u64,
}

/// The bits without the sign.
pub open spec fn magnitude_bits(bits: u64) -> int {
    if bits >= 0x8000000000000000 {
        bits - 0x8000000000000000
    } else {
        bits as int
    }
}

impl Double {
    /// The bits stand for no number.
    pub open spec fn is_nan(self) -> bool {
        magnitude_bits(self.bits) > 0x7FF0000000000000
    }

    /// A key by which numbers are ordered: the encoding's magnitude, turned for negative numbers.
    /// Both zeros have the key zero.
    pub open spec fn key(self) -> int {
        if self.bits >= 0x8000000000000000 {
            -magnitude_bits(self.bits)
        } else {
            magnitude_bits(self.bits)
        }
    }

    /// `self < other`; never, where either is no number.
    pub open spec fn below(self, other: Double) -> bool {
        !self.is_nan() && !other.is_nan() && self.key() < other.key()
    }

    /// `self <= other`; never, where either is no number.
    pub open spec fn at_most(self, other: Double) -> bool {
        !self.is_nan() && !other.is_nan() && self.key() <= other.key()
    }

    /// The number with the given encoding.
    pub fn from_bits(bits: u64) -> (r: Double)
        ensures
            r == (Double { bits }),
    {
        Double { bits }
    }

    fn nan(&self) -> (r: bool)
        ensures
            r == self.is_nan(),
    {
        self.magnitude() > 0x7FF0000000000000
    }

    fn magnitude(&self) -> (r: u64)
        ensures
            r as int == magnitude_bits(self.bits),
            r < 0x8000000000000000,
    {
        if self.bits >= 0x8000000000000000 {
            self.bits - 0x8000000000000000
        } else {
            self.bits
        }
    }

    fn order_key(&self) -> (r: i64)
        ensures
            r as int == self.key(),
    {
        if self.bits >= 0x8000000000000000 {
            -(self.magnitude() as i64)
        } else {
            self.magnitude() as i64
        }
    }

    /// `self < other`.
    pub fn lt(&self, other: &Double) -> (r: bool)
        ensures
            r == self.below(*other),
    {
        !self.nan() && !other.nan() && self.order_key() < other.order_key()
    }

    /// `self <= other`.
    pub fn le(&self, other: &Double) -> (r: bool)
        ensures
            r == self.at_most(*other),
    {
        !self.nan() && !other.nan() && self.order_key() <= other.order_key()
    }
}

/// Numbers are ordered as their encodings say: those without a sign bit by the encoding itself, those
/// with one the other way round and below them, and both zeros are the same. What is no number is
/// neither below nor above anything.
pub proof fn law_doubles_are_ordered(a: Double, b: Double)
    ensures
        a.bits <= 0x7FF0000000000000 && b.bits <= 0x7FF0000000000000 ==> a.below(b) == (a.bits
            < b.bits) && a.at_most(b) == (a.bits <= b.bits),
        0x8000000000000000 <= a.bits <= 0xFFF0000000000000 && 0x8000000000000000 <= b.bits
            <= 0xFFF0000000000000 ==> a.below(b) == (a.bits > b.bits) && a.at_most(b) == (a.bits
            >= b.bits),
        0x8000000000000000 < a.bits <= 0xFFF0000000000000 && b.bits <= 0x7FF0000000000000
            ==> a.below(b) && a.at_most(b) && !b.below(a) && !b.at_most(a),
        a.bits == 0x8000000000000000 && b.bits <= 0x7FF0000000000000 ==> a.at_most(b) && a.below(b)
            == (b.bits > 0) && !b.below(a) && b.at_most(a) == (b.bits == 0),
        0x7FF0000000000000 < a.bits < 0x8000000000000000 || a.bits > 0xFFF0000000000000
            ==> !a.below(b) && !b.below(a) && !a.at_most(b) && !b.at_most(a),
        a.below(b) ==> a.at_most(b) && !b.at_most(a),
{
}

} // verus!
