//! Clock and period calculator: maps a Unix epoch second to the canonical
//! 15-minute period timestamp and to the time left inside that period.
//!
//! All period arithmetic in the crate goes through this module.

use vstd::prelude::*;

verus! {

/// Length of one trading period in seconds (15 minutes).
pub const PERIOD_SECONDS: u64 = 900;

/// The canonical period timestamp of the instant `t`: the greatest multiple
/// of 900 that is at most `t`.
pub open spec fn spec_period_start(t: u64) -> int {
    (t as int / 900) * 900
}

/// Floor `t` to its 15-minute period timestamp.
pub fn period_start(t: u64) -> (p: u64)
    ensures
        p == spec_period_start(t),
        p <= t,
        t - p < 900,
        p % 900 == 0,
{
    proof {
        vstd::arithmetic::div_mod::lemma_fundamental_div_mod(t as int, 900);
        vstd::arithmetic::div_mod::lemma_mod_division_less_than_divisor(t as int, 900);
    }
    (t / 900) * 900
}

/// Seconds from `t` until the end of the period containing `t`; always in
/// `1..=900`.
pub fn time_remaining(t: u64) -> (r: u64)
    ensures
        r == spec_period_start(t) + 900 - t,
        1 <= r <= 900,
{
    proof {
        vstd::arithmetic::div_mod::lemma_fundamental_div_mod(t as int, 900);
        vstd::arithmetic::div_mod::lemma_mod_division_less_than_divisor(t as int, 900);
    }
    900 - t % 900
}

/// Relies on chrono's `Utc::now` and `DateTime::timestamp`: the current
/// wall-clock time in whole Unix epoch seconds. Nothing can be promised
/// of a clock reading; `current_period` interprets whatever comes back.
/// (chrono's `Utc::now` panics if the system clock reads before 1970.)
#[verifier::external_body]
pub fn now_unix_seconds() -> i64 {
    chrono::Utc::now().timestamp()
}

/// The period of a wall-clock reading: `None` for a reading before the
/// Unix epoch, where no period is defined.
pub fn current_period(now: i64) -> (p: Option<u64>)
    ensures
        now >= 0 ==> p == Some((spec_period_start(now as u64) as u64)),
        now < 0 ==> p is None,
{
    if now >= 0 {
        Some(period_start(now as u64))
    } else {
        None
    }
}

/// Seconds left in the period that starts at `period`, seen from `now`;
/// zero once the period has ended.
pub fn time_remaining_at(period: u64, now: u64) -> (r: u64)
    requires
        period <= u64::MAX - 900,
    ensures
        now >= period + 900 ==> r == 0,
        now < period + 900 ==> r == period + 900 - now,
{
    if now >= period + 900 {
        0
    } else {
        period + 900 - now
    }
}

} // verus!
