use vstd::prelude::*;

verus! {

/// What the task that runs the watchdog does next.
#[derive(Debug, Clone, Copy, PartialEq, Eq, Structural)]
pub enum RunnerAction {
    /// Start the watchdog.
    Start,
    /// Check the tasks, then sleep until this instant.
    CheckThenSleepUntil(u64),
}

/// The next check's deadline, one interval after `deadline`; `None` past
/// the largest instant.
pub fn next_check_deadline(deadline: u64, interval: u64) -> (next: Option<u64>)
    ensures
        next == (if deadline + interval <= u64::MAX {
            Some((deadline + interval) as u64)
        } else {
            None::<u64>
        }),
{
    deadline.checked_add(interval)
}

/// One step of the watchdog's run loop.  The first step starts the watchdog
/// and sets the first deadline one interval after `now`.  Every later step
/// checks, sleeps until the current deadline and moves the deadline on by
/// exactly one interval, so checks keep to a fixed grid and do not drift.
///
/// Returns whether the watchdog has started, the next deadline, and the
/// action to take.  An instant past `u64::MAX` cannot be scheduled.
pub fn runner_step(started: bool, deadline: u64, now: u64, interval: u64) -> (r: (
    bool,
    u64,
    RunnerAction,
))
    requires
        started ==> deadline + interval <= u64::MAX,
        !started ==> now + interval <= u64::MAX,
    ensures
        !started ==> r == (true, (now + interval) as u64, RunnerAction::Start),
        started ==> r == (true, (deadline + interval) as u64, RunnerAction::CheckThenSleepUntil(
            deadline,
        )),
{
    if !started {
        (true, now + interval, RunnerAction::Start)
    } else {
        (true, deadline + interval, RunnerAction::CheckThenSleepUntil(deadline))
    }
}

} // verus!
