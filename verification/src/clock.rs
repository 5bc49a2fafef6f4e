//! The clock of the machine.

use vstd::prelude::*;

verus! {

/// Whether the clock has shown this many seconds since the Unix epoch in the course of the
/// program.
pub uninterp spec fn is_clock_reading(seconds: int) -> bool;

/// Seconds since the Unix epoch, by `chrono::Utc::now` and `timestamp`. A clock set before the
/// epoch makes the call panic, so the count is not negative; the day it falls on has a 32-bit
/// number, so the count is below 2^48. The count is what the clock shows, and no more is said of
/// it.
#[verifier::external_body]
pub(crate) fn current_timestamp() -> (r: i64)
    ensures
        0 <= r < 0x1_0000_0000_0000,
        is_clock_reading(r as int),
{
    chrono::Utc::now().timestamp()
}

} // verus!
