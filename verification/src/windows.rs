//! Tick windows: how far back a query or a rule looks.
use vstd::prelude::*;

verus! {

/// The first tick of a window of `days` ticks that ends at `tick`,
/// clamped at tick 0 (`tick.saturating_sub(days)`).
pub open spec fn window_start(tick: u64, days: u64) -> u64 {
    if tick >= days {
        (tick - days) as u64
    } else {
        0
    }
}

/// The first tick of the window of `days` ticks that ends at `tick`.
pub fn lookback_start(tick: u64, days: u64) -> (r: u64)
    ensures
        r == window_start(tick, days),
{
    tick.saturating_sub(days)
}

} // verus!
