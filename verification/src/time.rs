//! Arithmetic on points in time and spans.

use vstd::prelude::*;

verus! {

/// `a` later by `b`, at most the last point in time that can be written down.
pub open spec fn later(a: u64, b: u64) -> u64 {
    if a + b > u64::MAX {
        u64::MAX
    } else {
        (a + b) as u64
    }
}

/// How long after `b` the point in time `a` lies; nothing if it lies before.
pub open spec fn since(a: u64, b: u64) -> u64 {
    if a < b {
        0
    } else {
        (a - b) as u64
    }
}

/// Seconds in milliseconds, at most the longest span that can be written down.
pub open spec fn in_ms(seconds: u64) -> u64 {
    if seconds * 1000 > u64::MAX {
        u64::MAX
    } else {
        (seconds * 1000) as u64
    }
}

/// Seconds in milliseconds, at most the longest span that can be written down.
pub fn seconds_to_ms(seconds: u64) -> (r: u64)
    ensures
        r == in_ms(seconds),
{
    match seconds.checked_mul(1000) {
        Some(ms) => ms,
        None => u64::MAX,
    }
}

/// `a` later by `b`, at most the last point in time that can be written down.
pub fn add_ms(a: u64, b: u64) -> (r: u64)
    ensures
        r == later(a, b),
{
    a.saturating_add(b)
}

/// How long after `b` the point in time `a` lies; nothing if it lies before.
pub fn since_ms(a: u64, b: u64) -> (r: u64)
    ensures
        r == since(a, b),
{
    a.saturating_sub(b)
}

} // verus!
