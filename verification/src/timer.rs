//! Conversions between clock ticks and time, and the timer's next deadline.

use crate::config::CLOCK_FREQ;
use crate::config::MSEC_PER_SEC;
use crate::config::TICKS_PER_SEC;
use vstd::prelude::*;

verus! {

/// Clock ticks in one millisecond.
pub open spec fn ticks_per_ms() -> int {
    CLOCK_FREQ as int / MSEC_PER_SEC as int
}

/// Clock ticks between two timer interrupts.
pub open spec fn ticks_per_slice() -> int {
    CLOCK_FREQ as int / TICKS_PER_SEC as int
}

/// The milliseconds that have passed when the clock reads `ticks`.
pub fn get_time_ms(ticks: usize) -> (ms: usize)
    ensures
        ms == ticks as int / ticks_per_ms(),
        ms == ticks / 12500,
{
    ticks / (CLOCK_FREQ / MSEC_PER_SEC)
}

/// The clock value at which the timer is to fire next, when the clock reads
/// `now`: one time slice later, wrapping around at the width of the clock.
pub fn set_next_trigger(now: usize) -> (deadline: usize)
    ensures
        deadline == now.wrapping_add(125000),
        now + ticks_per_slice() <= usize::MAX ==> deadline == now + ticks_per_slice(),
{
    now.wrapping_add(CLOCK_FREQ / TICKS_PER_SEC)
}

} // verus!
