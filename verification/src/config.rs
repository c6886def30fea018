use vstd::prelude::*;

use crate::time::Clock;

verus! {

/// Why the system was last reset.
#[derive(Debug, Clone, Copy, PartialEq, Eq, Structural)]
pub enum ResetReason {
    /// Reset was forced by software.
    Forced,
    /// Reset was caused by the watchdog timing out.
    TimedOut,
}

/// Errors of the watchdog.
#[derive(Debug, Clone, Copy, PartialEq, Eq, Structural)]
pub enum Error {
    /// Every task slot is taken.
    NoSlotsAvailable,
}

/// Timing of the watchdog, in milliseconds.
#[derive(Debug, Clone, Copy)]
pub struct WatchdogConfig {
    /// Timeout the hardware watchdog is started with.
    pub hardware_timeout: u64,
    /// Interval at which tasks are checked.  It must be shorter than the
    /// hardware timeout, or the hardware resets the system before a check can
    /// feed it.
    pub check_interval: u64,
}

impl WatchdogConfig {
    /// A configuration with the given timeout and check interval.
    pub fn new<C: Clock>(hardware_timeout_ms: u64, check_interval_ms: u64, _clock: &C) -> (config:
        Self)
        ensures
            config.hardware_timeout == hardware_timeout_ms,
            config.check_interval == check_interval_ms,
    {
        WatchdogConfig { hardware_timeout: hardware_timeout_ms, check_interval: check_interval_ms }
    }

    /// The standard configuration: a 5000 ms hardware timeout, checked every
    /// 1000 ms.
    pub fn default<C: Clock>(clock: &C) -> (config: Self)
        ensures
            config.hardware_timeout == 5000,
            config.check_interval == 1000,
    {
        Self::new(5000, 1000, clock)
    }
}

/// A request the watchdog makes of its hardware watchdog.
pub enum HardwareCommand {
    /// Start with this timeout, in milliseconds.
    Start(u64),
    /// Feed.
    Feed,
    /// Reset the system.
    Reset,
}

/// A hardware watchdog that can be started, fed and made to reset the system.
///
/// Every implementation keeps the contract below: the requests it receives
/// are appended, in order, to its `requests`.  Nothing else about the
/// hardware is specified.
pub trait HardwareWatchdog {
    /// Every request received so far, oldest first.
    ///
    /// An implementation verified with Verus defines this to match its
    /// methods; one outside Verus cannot state a spec function, and for it
    /// the sequence stands for the requests it has received.  Proofs about a
    /// generic hardware watchdog use only the contracts below, never this
    /// default.
    closed spec fn requests(&self) -> Seq<HardwareCommand> {
        Seq::empty()
    }

    /// Starts the hardware watchdog with a timeout in milliseconds.
    fn start(&mut self, timeout: u64)
        ensures
            final(self).requests() == old(self).requests().push(HardwareCommand::Start(timeout)),
    ;

    /// Feeds the hardware watchdog, so that it does not reset the system.
    fn feed(&mut self)
        ensures
            final(self).requests() == old(self).requests().push(HardwareCommand::Feed),
    ;

    /// Resets the system; an implementation does not return.
    fn trigger_reset(&mut self)
        ensures
            final(self).requests() == old(self).requests().push(HardwareCommand::Reset),
    ;

    /// Why the system was last reset, where the hardware tells.
    fn reset_reason(&self) -> Option<ResetReason>;
}

} // verus!
