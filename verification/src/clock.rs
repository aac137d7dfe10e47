//! Millisecond arithmetic on a monotonic clock.
//!
//! An instant is the number of milliseconds since an origin the caller picks
//! once. Differences never go below zero and sums stop at the largest value.

use vstd::prelude::*;

verus! {

/// Time that passed from `from` to `to`; zero when `to` is the earlier one.
pub open spec fn span(from: u64, to: u64) -> int {
    if to >= from {
        to - from
    } else {
        0
    }
}

/// `a - b`, stopping at zero.
pub open spec fn minus(a: int, b: int) -> int {
    if a >= b {
        a - b
    } else {
        0
    }
}

/// `n`, stopping at the largest representable instant.
pub open spec fn capped(n: int) -> u64 {
    if n >= u64::MAX {
        u64::MAX
    } else {
        n as u64
    }
}

/// The smaller of two numbers.
pub open spec fn least(a: int, b: int) -> int {
    if a <= b {
        a
    } else {
        b
    }
}

/// Milliseconds from `from` to `to`, zero if the clock went backwards.
pub fn elapsed_between(from: u64, to: u64) -> (d: u64)
    ensures
        d == span(from, to),
{
    if to >= from {
        to - from
    } else {
        0
    }
}

/// `a + b`, stopping at `u64::MAX`.
pub fn add_capped(a: u64, b: u64) -> (s: u64)
    ensures
        s == capped(a + b),
{
    if a > u64::MAX - b {
        u64::MAX
    } else {
        a + b
    }
}

/// `a - b`, stopping at zero.
pub fn sub_floored(a: u64, b: u64) -> (d: u64)
    ensures
        d == minus(a as int, b as int),
{
    if a >= b {
        a - b
    } else {
        0
    }
}

} // verus!
