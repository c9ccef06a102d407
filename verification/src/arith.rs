//! Arithmetic that stops at the ends of the range.

use vstd::prelude::*;

verus! {

/// `a + b`, or the largest number where that is out of range.
pub open spec fn plus(a: u64, b: u64) -> u64 {
    if a + b <= u64::MAX {
        (a + b) as u64
    } else {
        u64::MAX
    }
}

/// `a - b`, or zero where that is negative.
pub open spec fn minus(a: u64, b: u64) -> u64 {
    if a >= b {
        (a - b) as u64
    } else {
        0
    }
}

/// `a * b`, or the largest number where that is out of range.
pub open spec fn times(a: u64, b: u64) -> u64 {
    if a * b <= u64::MAX {
        (a * b) as u64
    } else {
        u64::MAX
    }
}

pub fn add_up(a: u64, b: u64) -> (r: u64)
    ensures
        r == plus(a, b),
{
    match a.checked_add(b) {
        Some(n) => n,
        None => u64::MAX,
    }
}

pub fn subtract(a: u64, b: u64) -> (r: u64)
    ensures
        r == minus(a, b),
{
    if a >= b {
        a - b
    } else {
        0
    }
}

pub fn multiply(a: u64, b: u64) -> (r: u64)
    ensures
        r == times(a, b),
{
    match a.checked_mul(b) {
        Some(n) => n,
        None => u64::MAX,
    }
}

/// Within the range the results are those of arithmetic, and beyond it the end
/// of the range that was passed.
pub proof fn law_arithmetic_stops_at_the_ends(a: u64, b: u64)
    ensures
        a >= b ==> minus(a, b) + b == a,
        a < b ==> minus(a, b) == 0,
        a + b <= 0xffff_ffff_ffff_ffff ==> plus(a, b) == a + b,
        a + b > 0xffff_ffff_ffff_ffff ==> plus(a, b) == 0xffff_ffff_ffff_ffff,
        a * b <= 0xffff_ffff_ffff_ffff ==> times(a, b) == a * b,
        a * b > 0xffff_ffff_ffff_ffff ==> times(a, b) == 0xffff_ffff_ffff_ffff,
{
}

} // verus!
