//! Numbers as the dialogue machine carries them.
//!
//! A number is the bit pattern of an IEEE 754 single-precision value together
//! with its decimal text. The machine reads the pattern (is it zero, is it
//! NaN, what is its integer part, how does it compare) and splices the text
//! into lines; it never does floating-point arithmetic itself. Whoever makes a
//! number supplies both parts.

use vstd::prelude::*;

verus! {

/// The sign bit of a single-precision pattern.
pub const SIGN_BIT: u32 = 0x8000_0000;

/// The exponent field of a single-precision pattern.
pub const EXPONENT_BITS: u32 = 0x7f80_0000;

/// The fraction field of a single-precision pattern.
pub const FRACTION_BITS: u32 = 0x007f_ffff;

/// What a [`Number`] is in contracts.
pub struct NumberView {
    pub bits: u32,
    pub text: Seq<char>,
}

/// A number: a single-precision bit pattern and its decimal text.
#[derive(Debug)]
pub struct Number {
    pub bits: u32,
    pub text: String,
}

impl View for Number {
    type V = NumberView;

    open spec fn view(&self) -> NumberView {
        NumberView { bits: self.bits, text: self.text@ }
    }
}

/// The pattern is a NaN: all exponent bits set and a fraction other than zero.
pub open spec fn is_nan_bits(bits: u32) -> bool {
    (bits & EXPONENT_BITS) == EXPONENT_BITS && (bits & FRACTION_BITS) != 0
}

/// The pattern is positive or negative zero.
pub open spec fn is_zero_bits(bits: u32) -> bool {
    (bits & !SIGN_BIT) == 0
}

/// The pattern has its sign bit set.
pub open spec fn is_negative_bits(bits: u32) -> bool {
    (bits & SIGN_BIT) != 0
}

/// The integer part of the number with this pattern, kept within `u32`: NaN
/// and everything below one give 0, everything from 2^32 on gives `u32::MAX`.
/// A finite pattern with biased exponent `e >= 127` and fraction `f` stands
/// for `(2^23 + f) * 2^(e - 150)`.
pub open spec fn integer_part(bits: u32) -> u32 {
    let exponent = (bits >> 23) & 0xff;
    let significand = (bits & FRACTION_BITS) | 0x0080_0000;
    if is_nan_bits(bits) || is_negative_bits(bits) || exponent < 127 {
        0
    } else if exponent >= 159 {
        u32::MAX
    } else if exponent >= 150 {
        significand << ((exponent - 150) as u32)
    } else {
        significand >> ((150 - exponent) as u32)
    }
}

/// The place of a pattern that is no NaN in the order of the numbers: its
/// magnitude bits, negated where the sign bit is set. Both zeros have place 0.
pub open spec fn order_key(bits: u32) -> int {
    if is_negative_bits(bits) {
        -((bits & !SIGN_BIT) as int)
    } else {
        (bits & !SIGN_BIT) as int
    }
}

/// Two patterns stand for equal numbers: neither is a NaN and they have the
/// same place in the order.
pub open spec fn number_equal(a: u32, b: u32) -> bool {
    !is_nan_bits(a) && !is_nan_bits(b) && order_key(a) == order_key(b)
}

/// The first pattern stands for a smaller number than the second; false when
/// either is a NaN.
pub open spec fn number_less(a: u32, b: u32) -> bool {
    !is_nan_bits(a) && !is_nan_bits(b) && order_key(a) < order_key(b)
}

pub open spec fn text_nan() -> Seq<char> {
    seq!['N', 'a', 'N']
}

/// Zero: the pattern 0 and the text `0`.
pub open spec fn zero_view() -> NumberView {
    NumberView { bits: 0, text: seq!['0'] }
}

/// One: the pattern of 1.0 and the text `1`.
pub open spec fn one_view() -> NumberView {
    NumberView { bits: 0x3f80_0000, text: seq!['1'] }
}

/// Negative zero: the sign bit alone and the text `-0`.
pub open spec fn negative_zero_view() -> NumberView {
    NumberView { bits: SIGN_BIT, text: seq!['-', '0'] }
}

/// The quiet NaN with the text `NaN`.
pub open spec fn nan_view() -> NumberView {
    NumberView { bits: 0x7fc0_0000, text: text_nan() }
}

impl Number {
    /// The number with this pattern and this text.
    pub fn new(bits: u32, text: String) -> (number: Number)
        ensures
            number@ == (NumberView { bits, text: text@ }),
    {
        Number { bits, text }
    }

    /// Zero.
    pub fn zero() -> (number: Number)
        ensures
            number@ == zero_view(),
    {
        let text = "0".to_owned();
        proof {
            reveal_strlit("0");
            assert(text@ =~= seq!['0']);
        }
        Number { bits: 0, text }
    }

    /// One.
    pub fn one() -> (number: Number)
        ensures
            number@ == one_view(),
    {
        let text = "1".to_owned();
        proof {
            reveal_strlit("1");
            assert(text@ =~= seq!['1']);
        }
        Number { bits: 0x3f80_0000, text }
    }

    /// Negative zero.
    pub fn negative_zero() -> (number: Number)
        ensures
            number@ == negative_zero_view(),
    {
        let text = "-0".to_owned();
        proof {
            reveal_strlit("-0");
            assert(text@ =~= seq!['-', '0']);
        }
        Number { bits: SIGN_BIT, text }
    }

    /// The quiet NaN.
    pub fn nan() -> (number: Number)
        ensures
            number@ == nan_view(),
    {
        let text = "NaN".to_owned();
        proof {
            reveal_strlit("NaN");
            assert(text@ =~= text_nan());
        }
        Number { bits: 0x7fc0_0000, text }
    }

    /// Whether the number is a NaN.
    pub fn is_nan(&self) -> (nan: bool)
        ensures
            nan == is_nan_bits(self.bits),
    {
        (self.bits & EXPONENT_BITS) == EXPONENT_BITS && (self.bits & FRACTION_BITS) != 0
    }

    /// Whether the number is positive or negative zero.
    pub fn is_zero(&self) -> (zero: bool)
        ensures
            zero == is_zero_bits(self.bits),
    {
        (self.bits & !SIGN_BIT) == 0
    }

    /// The integer part of the number, kept within `u32`.
    pub fn to_u32(&self) -> (part: u32)
        ensures
            part == integer_part(self.bits),
    {
        let bits = self.bits;
        let exponent = (bits >> 23) & 0xff;
        let significand = (bits & FRACTION_BITS) | 0x0080_0000;
        assert(exponent <= 255) by (bit_vector)
            requires
                exponent == (bits >> 23) & 0xff,
        ;
        if self.is_nan() || (bits & SIGN_BIT) != 0 || exponent < 127 {
            0
        } else if exponent >= 159 {
            u32::MAX
        } else if exponent >= 150 {
            significand << (exponent - 150)
        } else {
            significand >> (150 - exponent)
        }
    }

    /// The integer part of the number, kept within `u8`.
    pub fn to_u8(&self) -> (part: u8)
        ensures
            part as int == if integer_part(self.bits) > 255 {
                255
            } else {
                integer_part(self.bits) as int
            },
    {
        let part = self.to_u32();
        if part > 255 {
            255
        } else {
            part as u8
        }
    }

    /// Whether the two numbers are equal: both zeros are, and a NaN equals
    /// nothing.
    pub fn equals(&self, other: &Number) -> (equal: bool)
        ensures
            equal == number_equal(self.bits, other.bits),
    {
        !self.is_nan() && !other.is_nan() && self.key() == other.key()
    }

    /// Whether this number is smaller than the other.
    pub fn less_than(&self, other: &Number) -> (less: bool)
        ensures
            less == number_less(self.bits, other.bits),
    {
        !self.is_nan() && !other.is_nan() && self.key() < other.key()
    }

    fn key(&self) -> (key: i64)
        ensures
            key == order_key(self.bits),
    {
        let magnitude = self.bits & !SIGN_BIT;
        if (self.bits & SIGN_BIT) != 0 {
            -(magnitude as i64)
        } else {
            magnitude as i64
        }
    }
}

impl Clone for Number {
    fn clone(&self) -> (number: Number)
        ensures
            number@ == self@,
    {
        Number { bits: self.bits, text: self.text.clone() }
    }
}

} // verus!
