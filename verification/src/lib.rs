//! A task watchdog: many software tasks are multiplexed onto one hardware
//! watchdog timer.  Each registered task must be fed within its own maximum
//! period; a periodic check feeds the hardware watchdog only while every task
//! is healthy, so a single starved task lets the hardware reset the system.
//!
//! All instants and durations are milliseconds held in `u64`.

pub mod task;
pub mod time;
pub mod config;
pub mod map_watchdog;
pub mod slot_watchdog;
pub mod platform;
pub mod schedule;
pub mod laws;

pub use config::{Error, HardwareCommand, HardwareWatchdog, ResetReason, WatchdogConfig};
pub use task::{Id, Task, TaskState};
pub use time::{Clock, EmbassyClock};
