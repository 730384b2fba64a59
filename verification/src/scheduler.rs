//! The period scheduler's decision rule: from the current time and the
//! monitor's known period, decide whether to run discovery now, sleep
//! until the next 15-minute boundary first, or back off briefly and
//! re-check (the guard against clock anomalies).

use vstd::prelude::*;
use crate::clock::{spec_period_start, period_start};

verus! {

/// What the scheduler loop does next.
#[derive(Clone, Copy, Debug, PartialEq, Eq, Structural)]
pub enum SchedulerAction {
    /// Sleep this many seconds (possibly zero), then discover the new
    /// period's markets.
    DiscoverAfter(u64),
    /// Sleep this many seconds, then re-evaluate without discovering.
    RecheckAfter(u64),
}

/// The scheduler's wake-up rule. A monitor whose period disagrees with the
/// clock's current period (and is set at all) triggers immediate
/// discovery. Otherwise the scheduler sleeps until the next boundary when
/// that is less than two periods away, proceeds at once when the boundary
/// has been reached, and backs off five seconds when the computed sleep is
/// implausibly long.
pub fn plan_wakeup(now: u64, monitor_period: u64) -> (a: SchedulerAction)
    requires
        now <= u64::MAX - 900,
    ensures
        monitor_period != spec_period_start(now) && monitor_period != 0 ==> a
            == SchedulerAction::DiscoverAfter(0),
        (monitor_period == spec_period_start(now) || monitor_period == 0) ==> {
            let d = spec_period_start(now) + 900 - now;
            if 0 < d < 1800 {
                a == SchedulerAction::DiscoverAfter(d as u64)
            } else if d == 0 {
                a == SchedulerAction::DiscoverAfter(0)
            } else {
                a == SchedulerAction::RecheckAfter(5)
            }
        },
{
    let current_period: u64 = period_start(now);
    if monitor_period != current_period && monitor_period != 0 {
        return SchedulerAction::DiscoverAfter(0);
    }
    let next_period: u64 = current_period + 900;
    let sleep_duration: u64 = if next_period > now {
        next_period - now
    } else {
        0
    };
    if sleep_duration > 0 && sleep_duration < 1800 {
        SchedulerAction::DiscoverAfter(sleep_duration)
    } else if sleep_duration == 0 {
        SchedulerAction::DiscoverAfter(0)
    } else {
        SchedulerAction::RecheckAfter(5)
    }
}

} // verus!
