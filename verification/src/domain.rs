//! The 8-bit cyclic time domain and its wrapping arithmetic.
//!
//! All clock values and deadlines are one byte wide and wrap modulo 256.
//! The domain can be interpreted as signed (`i8`, values `-128..=127`) or
//! as unsigned (`u8`, values `0..=255`); each interpretation has its own
//! wrapping operations and its own notion of remaining time-to-deadline.

use vstd::prelude::*;

verus! {

/// Sum of two signed domain values, wrapped back into `-128..=127`.
pub open spec fn wrap_add_signed(a: i8, b: i8) -> i8 {
    if a + b > i8::MAX {
        (a + b - 256) as i8
    } else if a + b < i8::MIN {
        (a + b + 256) as i8
    } else {
        (a + b) as i8
    }
}

/// Difference of two signed domain values, wrapped back into `-128..=127`.
pub open spec fn wrap_sub_signed(a: i8, b: i8) -> i8 {
    if a - b > i8::MAX {
        (a - b - 256) as i8
    } else if a - b < i8::MIN {
        (a - b + 256) as i8
    } else {
        (a - b) as i8
    }
}

/// Sum of two unsigned domain values, wrapped back into `0..=255`.
pub open spec fn wrap_add_unsigned(a: u8, b: u8) -> u8 {
    if a + b > u8::MAX {
        (a + b - 256) as u8
    } else {
        (a + b) as u8
    }
}

/// Difference of two unsigned domain values, wrapped back into `0..=255`.
pub open spec fn wrap_sub_unsigned(a: u8, b: u8) -> u8 {
    if a - b < 0 {
        (a - b + 256) as u8
    } else {
        (a - b) as u8
    }
}

/// Remaining time-to-deadline under the signed policy: negative values
/// mean the deadline lies in the past relative to `now`.
pub open spec fn remaining_signed(deadline: i8, now: i8) -> i8 {
    wrap_sub_signed(deadline, now)
}

/// Remaining time-to-deadline under the unsigned policy: always
/// non-negative, the number of ticks forward until the deadline assuming
/// it lies within one full domain cycle ahead of `now`.
pub open spec fn remaining_unsigned(deadline: u8, now: u8) -> u8 {
    wrap_sub_unsigned(deadline, now)
}

/// Total wrapping addition in the signed domain: defined for every pair
/// of inputs, including the extremes, and never panics.
pub fn wrapping_add_i8(a: i8, b: i8) -> (r: i8)
    ensures
        r == wrap_add_signed(a, b),
{
    a.wrapping_add(b)
}

/// Total wrapping subtraction in the signed domain.
pub fn wrapping_sub_i8(a: i8, b: i8) -> (r: i8)
    ensures
        r == wrap_sub_signed(a, b),
{
    a.wrapping_sub(b)
}

/// Total wrapping addition in the unsigned domain.
pub fn wrapping_add_u8(a: u8, b: u8) -> (r: u8)
    ensures
        r == wrap_add_unsigned(a, b),
{
    a.wrapping_add(b)
}

/// Total wrapping subtraction in the unsigned domain.
pub fn wrapping_sub_u8(a: u8, b: u8) -> (r: u8)
    ensures
        r == wrap_sub_unsigned(a, b),
{
    a.wrapping_sub(b)
}

} // verus!
