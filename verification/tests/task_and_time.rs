use std::cell::Cell;

use task_watchdog::config::{Error, ResetReason, WatchdogConfig};
use task_watchdog::task::{Id, Task};
use task_watchdog::time::{elapsed_since, has_elapsed, Clock, EmbassyClock};

#[derive(Clone, Copy, PartialEq, Eq, PartialOrd, Ord, Debug)]
enum Job {
    Only,
}
impl Id for Job {}

struct FixedClock(Cell<u64>);

impl Clock for FixedClock {
    fn now(&self) -> u64 {
        self.0.get()
    }
}

#[test]
fn elapsed_since_saturates() {
    assert_eq!(elapsed_since(150, 100), 50);
    assert_eq!(elapsed_since(100, 100), 0);
    assert_eq!(elapsed_since(100, 150), 0);
    assert_eq!(elapsed_since(u64::MAX, 0), u64::MAX);
}

#[test]
fn has_elapsed_is_inclusive() {
    assert!(has_elapsed(200, 100, 100));
    assert!(!has_elapsed(199, 100, 100));
    assert!(has_elapsed(100, 100, 0));
    assert!(!has_elapsed(50, 100, 1));
}

#[test]
fn task_new_reads_the_clock() {
    let clock = FixedClock(Cell::new(42));
    let task = Task::new(Job::Only, 10, &clock);
    assert_eq!(task.id(), Job::Only);
    assert_eq!(task.last_feed(), 42);
    assert_eq!(task.max_duration(), 10);
    assert!(!task.is_starved(&clock));
    clock.0.set(52);
    assert!(task.is_starved(&clock));
}

#[test]
fn task_feed_moves_last_feed() {
    let clock = FixedClock(Cell::new(5));
    let mut task = Task::new_at(Job::Only, 10, 0);
    assert!(task.is_starved_at(10));
    task.feed(&clock);
    assert_eq!(task.last_feed(), 5);
    task.feed_at(7);
    assert_eq!(task.last_feed(), 7);
    assert!(!task.is_starved_at(16));
    assert!(task.is_starved_at(17));
}

#[test]
fn config_new_and_default() {
    let clock = FixedClock(Cell::new(0));
    let config = WatchdogConfig::new(800, 200, &clock);
    assert_eq!((config.hardware_timeout, config.check_interval), (800, 200));
    let config = WatchdogConfig::default(&clock);
    assert_eq!((config.hardware_timeout, config.check_interval), (5000, 1000));
}

#[test]
fn error_and_reset_reason_compare() {
    assert_eq!(Error::NoSlotsAvailable, Error::NoSlotsAvailable);
    assert_ne!(ResetReason::Forced, ResetReason::TimedOut);
}

#[test]
fn embassy_clock_runs_forward() {
    let clock = EmbassyClock;
    let first = clock.now();
    let started = std::time::Instant::now();
    while started.elapsed() < std::time::Duration::from_millis(20) {}
    let second = clock.now();
    assert!(second >= first + 10);
}
