use vstd::prelude::*;

use crate::task::elapsed_between;

verus! {

/// A source of the current time.
///
/// Instants are milliseconds on the clock's own monotonic scale; durations
/// are milliseconds.
pub trait Clock {
    /// The current instant.
    fn now(&self) -> u64;
}

/// Milliseconds elapsed from `instant` to `now` (zero if `now` is earlier).
pub fn elapsed_since(now: u64, instant: u64) -> (elapsed: u64)
    ensures
        elapsed == elapsed_between(instant, now),
{
    if instant <= now {
        now - instant
    } else {
        0
    }
}

/// Whether at least `duration` milliseconds have passed from `instant` to `now`.
pub fn has_elapsed(now: u64, instant: u64, duration: u64) -> (passed: bool)
    ensures
        passed == (elapsed_between(instant, now) >= duration),
{
    elapsed_since(now, instant) >= duration
}

/// The clock of `embassy-time`, read in whole milliseconds.
pub struct EmbassyClock;

impl Clock for EmbassyClock {
    fn now(&self) -> u64 {
        embassy_now_millis()
    }
}

/// Calls `embassy_time::Instant::now` and converts the instant with
/// `Instant::as_millis`.  The result is the time at the call, so nothing is
/// stated of it.
#[verifier::external_body]
fn embassy_now_millis() -> u64 {
    embassy_time::Instant::now().as_millis()
}

} // verus!
