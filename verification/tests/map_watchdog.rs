use std::cell::Cell;
use std::rc::Rc;

use task_watchdog::config::{HardwareWatchdog, ResetReason, WatchdogConfig};
use task_watchdog::map_watchdog::Watchdog;
use task_watchdog::task::Id;
use task_watchdog::time::Clock;

#[derive(Clone, Copy, PartialEq, Eq, PartialOrd, Ord, Debug)]
enum TaskId {
    Main,
    Blink,
    Radio,
}
impl Id for TaskId {}

#[derive(Clone, Default)]
struct HwLog {
    started: Rc<Cell<Option<u64>>>,
    feeds: Rc<Cell<u32>>,
    resets: Rc<Cell<u32>>,
}

struct MockHw(HwLog);

impl HardwareWatchdog for MockHw {
    fn start(&mut self, timeout: u64) {
        self.0.started.set(Some(timeout));
    }
    fn feed(&mut self) {
        self.0.feeds.set(self.0.feeds.get() + 1);
    }
    fn trigger_reset(&mut self) {
        self.0.resets.set(self.0.resets.get() + 1);
    }
    fn reset_reason(&self) -> Option<ResetReason> {
        Some(ResetReason::Forced)
    }
}

#[derive(Clone)]
struct MockClock(Rc<Cell<u64>>);

impl Clock for MockClock {
    fn now(&self) -> u64 {
        self.0.get()
    }
}

fn setup() -> (Watchdog<TaskId, MockHw, MockClock>, HwLog, Rc<Cell<u64>>) {
    let log = HwLog::default();
    let time = Rc::new(Cell::new(0));
    let clock = MockClock(time.clone());
    let config = WatchdogConfig::new(5000, 1000, &clock);
    let w = Watchdog::new(MockHw(log.clone()), config, clock);
    (w, log, time)
}

#[test]
fn map_check_feeds_hardware_only_when_healthy() {
    let (mut w, log, time) = setup();
    w.register_task(&TaskId::Main, 2000);
    w.register_task(&TaskId::Blink, 3000);
    w.start();
    assert_eq!(log.started.get(), Some(5000));
    time.set(1500);
    assert!(!w.check());
    assert_eq!(log.feeds.get(), 1);
    time.set(2000);
    assert!(w.check());
    assert_eq!(log.feeds.get(), 1);
}

#[test]
fn map_empty_watchdog_is_healthy() {
    let (mut w, log, _time) = setup();
    assert!(!w.check_at(u64::MAX));
    assert_eq!(log.feeds.get(), 1);
}

#[test]
fn map_starvation_boundary_is_inclusive() {
    let (mut w, _log, _time) = setup();
    w.register_task_at(&TaskId::Main, 100, 10);
    assert!(!w.check_at(109));
    assert!(w.check_at(110));
}

#[test]
fn map_feeding_restarts_the_period() {
    let (mut w, log, _time) = setup();
    w.register_task_at(&TaskId::Main, 100, 0);
    w.feed_at(&TaskId::Main, 90);
    assert!(!w.check_at(150));
    assert!(w.check_at(190));
    assert_eq!(log.feeds.get(), 1);
}

#[test]
fn map_feed_with_clock_uses_current_time() {
    let (mut w, _log, time) = setup();
    w.register_task(&TaskId::Main, 100);
    time.set(80);
    w.feed(&TaskId::Main);
    time.set(150);
    assert!(!w.check());
    time.set(180);
    assert!(w.check());
}

#[test]
fn map_feeding_unknown_task_changes_nothing() {
    let (mut w, _log, _time) = setup();
    w.register_task_at(&TaskId::Main, 100, 0);
    w.feed_at(&TaskId::Radio, 90);
    assert!(w.check_at(100));
}

#[test]
fn map_deregistered_task_no_longer_starves() {
    let (mut w, _log, _time) = setup();
    w.register_task_at(&TaskId::Main, 100, 0);
    w.register_task_at(&TaskId::Blink, 1000, 0);
    assert!(w.check_at(200));
    w.deregister_task(&TaskId::Main);
    assert!(!w.check_at(200));
    w.deregister_task(&TaskId::Radio);
    assert!(!w.check_at(200));
}

#[test]
fn map_reregistering_replaces_the_task() {
    let (mut w, _log, _time) = setup();
    w.register_task_at(&TaskId::Main, 100, 0);
    w.register_task_at(&TaskId::Main, 1000, 50);
    assert!(!w.check_at(500));
    w.deregister_task(&TaskId::Main);
    assert!(!w.check_at(5000));
}

#[test]
fn map_start_feeds_every_task() {
    let (mut w, log, _time) = setup();
    w.register_task_at(&TaskId::Main, 100, 0);
    w.register_task_at(&TaskId::Blink, 200, 0);
    w.start_at(500);
    assert_eq!(log.started.get(), Some(5000));
    assert!(!w.check_at(550));
    assert!(w.check_at(600));
}

#[test]
fn map_zero_duration_task_is_always_starved() {
    let (mut w, _log, _time) = setup();
    w.register_task_at(&TaskId::Main, 0, 10);
    assert!(w.check_at(10));
}

#[test]
fn map_clock_going_back_counts_as_no_time() {
    let (mut w, _log, _time) = setup();
    w.register_task_at(&TaskId::Main, 100, 1000);
    assert!(!w.check_at(5));
}

#[test]
fn map_starvation_persists_until_fed() {
    let (mut w, _log, _time) = setup();
    w.register_task_at(&TaskId::Main, 100, 0);
    assert!(w.check_at(100));
    assert!(w.check_at(1000));
    assert!(w.check_at(u64::MAX));
    w.feed_at(&TaskId::Main, 1000);
    assert!(!w.check_at(1050));
}

#[test]
fn map_reset_reason_and_trigger_reset_reach_the_hardware() {
    let (mut w, log, _time) = setup();
    assert_eq!(w.reset_reason(), Some(ResetReason::Forced));
    w.trigger_reset();
    assert_eq!(log.resets.get(), 1);
}

#[test]
fn map_config_is_kept() {
    let (w, _log, _time) = setup();
    let config = w.config();
    assert_eq!(config.hardware_timeout, 5000);
    assert_eq!(config.check_interval, 1000);
}

#[test]
fn map_registered_task_is_healthy_at_once() {
    let (mut w, log, _time) = setup();
    w.register_task_at(&TaskId::Main, 100, 1000);
    assert!(!w.check_at(1000));
    assert_eq!(log.feeds.get(), 1);
}

#[test]
fn map_feeding_one_task_leaves_the_others_starving() {
    let (mut w, _log, _time) = setup();
    w.register_task_at(&TaskId::Main, 100, 0);
    w.register_task_at(&TaskId::Blink, 100, 0);
    w.feed_at(&TaskId::Main, 150);
    assert!(w.check_at(160));
    w.feed_at(&TaskId::Blink, 155);
    assert!(!w.check_at(160));
}
