//! Double-precision numbers carried as their IEEE 754 bit patterns.
//!
//! The library never computes with such numbers; it compares them where a
//! decision depends on them.

use vstd::prelude::*;

verus! {

/// The bits of positive infinity.
pub const INFINITY: u64 = 0x7ff0_0000_0000_0000;

/// The sign bit.
pub const SIGN: u64 = 0x8000_0000_0000_0000;

/// The bits of zero.
pub const ZERO: u64 = 0;

/// The bits of one half.
pub const HALF: u64 = 0x3fe0_0000_0000_0000;

/// The bits without the sign.
pub open spec fn magnitude(bits: u64) -> int {
    if bits >= SIGN {
        bits - SIGN
    } else {
        bits as int
    }
}

/// Not a number: an exponent of all ones with a fraction that is not zero.
pub open spec fn is_nan(bits: u64) -> bool {
    magnitude(bits) > INFINITY
}

/// A number that orders the numbers as their values do; both zeros map to 0.
pub open spec fn rank(bits: u64) -> int {
    if bits >= SIGN {
        -magnitude(bits)
    } else {
        magnitude(bits)
    }
}

/// `a < b` as numbers; false where either is not a number.
pub open spec fn less(a: u64, b: u64) -> bool {
    !is_nan(a) && !is_nan(b) && rank(a) < rank(b)
}

/// `a >= b` as numbers; false where either is not a number.
pub open spec fn at_least(a: u64, b: u64) -> bool {
    !is_nan(a) && !is_nan(b) && rank(a) >= rank(b)
}

pub fn nan(bits: u64) -> (r: bool)
    ensures
        r == is_nan(bits),
{
    if bits >= SIGN {
        bits - SIGN > INFINITY
    } else {
        bits > INFINITY
    }
}

pub fn is_less(a: u64, b: u64) -> (r: bool)
    ensures
        r == less(a, b),
{
    if nan(a) || nan(b) {
        false
    } else if a >= SIGN {
        if b >= SIGN {
            a > b
        } else {
            a != SIGN || b != 0
        }
    } else {
        b < SIGN && a < b
    }
}

pub fn is_at_least(a: u64, b: u64) -> (r: bool)
    ensures
        r == at_least(a, b),
{
    !nan(a) && !nan(b) && !is_less(a, b)
}

/// The greater of two numbers; the other one where one is not a number.
pub open spec fn greater_of(a: u64, b: u64) -> u64 {
    if is_nan(a) {
        b
    } else if less(a, b) {
        b
    } else {
        a
    }
}

pub fn greater(a: u64, b: u64) -> (r: u64)
    ensures
        r == greater_of(a, b),
{
    if nan(a) {
        b
    } else if is_less(a, b) {
        b
    } else {
        a
    }
}

/// The comparison is that of numbers: positive numbers stand in the order of
/// their bits, negative ones in the reverse order and before the others, the
/// two zeros are equal, and what is no number compares with nothing.
pub proof fn law_bits_are_compared_as_numbers(a: u64, b: u64)
    ensures
        a <= 0x7ff0_0000_0000_0000 && b <= 0x7ff0_0000_0000_0000 ==> less(a, b) == (a < b),
        0x8000_0000_0000_0000 <= a <= 0xfff0_0000_0000_0000 && 0x8000_0000_0000_0000 <= b
            <= 0xfff0_0000_0000_0000 ==> less(a, b) == (a > b),
        0x8000_0000_0000_0000 < a <= 0xfff0_0000_0000_0000 && b <= 0x7ff0_0000_0000_0000 ==> less(
            a,
            b,
        ) && !less(b, a),
        !less(0, 0x8000_0000_0000_0000) && !less(0x8000_0000_0000_0000, 0),
        0x7ff0_0000_0000_0000 < a < 0x8000_0000_0000_0000 || a > 0xfff0_0000_0000_0000 ==> !less(
            a,
            b,
        ) && !less(b, a) && !at_least(a, b) && !at_least(b, a),
        less(a, b) ==> !at_least(a, b) && at_least(b, a),
        at_least(a, a) ==> (at_least(b, b) ==> less(a, b) || at_least(a, b)),
{
}

/// The greater of two numbers is one of them and not less than the other.
pub proof fn law_the_greater_is_not_less(a: u64, b: u64)
    ensures
        greater_of(a, b) == a || greater_of(a, b) == b,
        !is_nan(a) && !is_nan(b) ==> at_least(greater_of(a, b), a) && at_least(
            greater_of(a, b),
            b,
        ),
        is_nan(a) ==> greater_of(a, b) == b,
        !is_nan(a) && is_nan(b) ==> greater_of(a, b) == a,
{
}

} // verus!
