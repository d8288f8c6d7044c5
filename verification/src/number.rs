//! Numbers of the language are IEEE-754 doubles. The verified core never
//! computes with them: it carries each as its 64-bit pattern and reads only
//! what the pattern itself shows (sign, order, zero, integer part).
//! Arithmetic and decimal formatting come from the embedder.

use vstd::prelude::*;

verus! {

/// The sign bit of a double.
pub const SIGN_BIT: u64 = 0x8000_0000_0000_0000;

/// The pattern of positive infinity: every exponent bit set, no fraction bit.
pub const INFINITY_BITS: u64 = 0x7ff0_0000_0000_0000;

/// The implicit leading bit of a normal double's significand.
pub const HIDDEN_BIT: u64 = 0x0010_0000_0000_0000;

/// The pattern without its sign bit.
pub open spec fn magnitude(bits: u64) -> u64 {
    if bits >= SIGN_BIT {
        (bits - SIGN_BIT) as u64
    } else {
        bits
    }
}

/// Not a number: the exponent is all ones and the fraction is not zero.
pub open spec fn is_nan(bits: u64) -> bool {
    magnitude(bits) > INFINITY_BITS
}

/// Positive or negative zero.
pub open spec fn is_zero(bits: u64) -> bool {
    magnitude(bits) == 0
}

/// Strictly below zero: the sign is set and the value is neither zero nor NaN.
pub open spec fn is_negative(bits: u64) -> bool {
    bits > SIGN_BIT && !is_nan(bits)
}

/// An integer that orders the doubles other than NaN as their values are
/// ordered: the magnitude, negated under a set sign. Both zeros map to 0.
pub open spec fn order_key(bits: u64) -> int {
    if bits >= SIGN_BIT {
        -(magnitude(bits) as int)
    } else {
        magnitude(bits) as int
    }
}

/// IEEE equality: NaN equals nothing, the two zeros are equal.
pub open spec fn number_eq(a: u64, b: u64) -> bool {
    !is_nan(a) && !is_nan(b) && order_key(a) == order_key(b)
}

/// IEEE `<`: false whenever an operand is NaN.
pub open spec fn number_lt(a: u64, b: u64) -> bool {
    !is_nan(a) && !is_nan(b) && order_key(a) < order_key(b)
}

/// The biased exponent field.
pub open spec fn exponent(bits: u64) -> u64 {
    magnitude(bits) / HIDDEN_BIT
}

/// The significand of a normal double, hidden bit included.
pub open spec fn significand(bits: u64) -> u64 {
    (magnitude(bits) % HIDDEN_BIT + HIDDEN_BIT) as u64
}

/// The integer part of the absolute value, capped at `u64::MAX`; 0 for NaN.
/// A double below one in magnitude has exponent under 1023; from exponent
/// 1075 on the significand is an integer already and is shifted left.
pub open spec fn integer_part(bits: u64) -> u64 {
    let e = exponent(bits);
    let m = significand(bits);
    if is_nan(bits) || e < 1023 {
        0
    } else if e <= 1075 {
        m >> ((1075 - e) as u64)
    } else if e <= 1086 {
        m << ((e - 1075) as u64)
    } else {
        u64::MAX
    }
}

pub fn magnitude_of(bits: u64) -> (r: u64)
    ensures
        r == magnitude(bits),
{
    if bits >= SIGN_BIT {
        bits - SIGN_BIT
    } else {
        bits
    }
}

pub fn nan(bits: u64) -> (r: bool)
    ensures
        r == is_nan(bits),
{
    magnitude_of(bits) > INFINITY_BITS
}

pub fn zero(bits: u64) -> (r: bool)
    ensures
        r == is_zero(bits),
{
    magnitude_of(bits) == 0
}

pub fn negative(bits: u64) -> (r: bool)
    ensures
        r == is_negative(bits),
{
    bits > SIGN_BIT && !nan(bits)
}

pub fn equal(a: u64, b: u64) -> (r: bool)
    ensures
        r == number_eq(a, b),
{
    if nan(a) || nan(b) {
        return false;
    }
    let ma: u64 = magnitude_of(a);
    let mb: u64 = magnitude_of(b);
    if ma == 0 && mb == 0 {
        true
    } else {
        a == b
    }
}

pub fn less(a: u64, b: u64) -> (r: bool)
    ensures
        r == number_lt(a, b),
{
    if nan(a) || nan(b) {
        return false;
    }
    let ma: u64 = magnitude_of(a);
    let mb: u64 = magnitude_of(b);
    if a >= SIGN_BIT {
        if b >= SIGN_BIT {
            ma > mb
        } else {
            ma > 0 || mb > 0
        }
    } else {
        if b >= SIGN_BIT {
            false
        } else {
            ma < mb
        }
    }
}

/// The integer part of the absolute value as an index, capped at `usize::MAX`.
pub fn truncate_to_index(bits: u64) -> (r: usize)
    ensures
        r as int == if integer_part(bits) <= usize::MAX {
            integer_part(bits) as int
        } else {
            usize::MAX as int
        },
{
    let mag: u64 = magnitude_of(bits);
    let e: u64 = mag / HIDDEN_BIT;
    let m: u64 = mag % HIDDEN_BIT + HIDDEN_BIT;
    let whole: u64 = if mag > INFINITY_BITS || e < 1023 {
        0
    } else if e <= 1075 {
        m >> (1075 - e)
    } else if e <= 1086 {
        m << (e - 1075)
    } else {
        u64::MAX
    };
    if whole > usize::MAX as u64 {
        usize::MAX
    } else {
        whole as usize
    }
}

} // verus!
