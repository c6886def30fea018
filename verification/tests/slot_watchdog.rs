use std::cell::Cell;
use std::rc::Rc;

use task_watchdog::config::{Error, HardwareWatchdog, ResetReason, WatchdogConfig};
use task_watchdog::slot_watchdog::Watchdog;
use task_watchdog::task::Id;
use task_watchdog::time::Clock;

#[derive(Clone, Copy, PartialEq, Eq, Debug)]
enum SlotTask {
    Main,
    Blink,
    Radio,
}
impl Id for SlotTask {}

#[derive(Clone, Default)]
struct SlotHwLog {
    started: Rc<Cell<Option<u64>>>,
    feeds: Rc<Cell<u32>>,
}

struct SlotHw(SlotHwLog);

impl HardwareWatchdog for SlotHw {
    fn start(&mut self, timeout: u64) {
        self.0.started.set(Some(timeout));
    }
    fn feed(&mut self) {
        self.0.feeds.set(self.0.feeds.get() + 1);
    }
    fn trigger_reset(&mut self) {}
    fn reset_reason(&self) -> Option<ResetReason> {
        None
    }
}

struct SlotClock(Rc<Cell<u64>>);

impl Clock for SlotClock {
    fn now(&self) -> u64 {
        self.0.get()
    }
}

fn setup<const N: usize>() -> (Watchdog<SlotTask, N, SlotHw, SlotClock>, SlotHwLog, Rc<Cell<u64>>) {
    let log = SlotHwLog::default();
    let time = Rc::new(Cell::new(0));
    let clock = SlotClock(time.clone());
    let config = WatchdogConfig::default(&clock);
    (Watchdog::new(SlotHw(log.clone()), config, clock), log, time)
}

#[test]
fn slot_registration_fails_when_full() {
    let (mut w, _log, _time) = setup::<2>();
    assert_eq!(w.register_task_at(&SlotTask::Main, 100, 0), Ok(()));
    assert_eq!(w.register_task_at(&SlotTask::Blink, 100, 0), Ok(()));
    assert_eq!(w.register_task_at(&SlotTask::Radio, 100, 0), Err(Error::NoSlotsAvailable));
    assert!(!w.check_at(50));
    // the refused task is not watched
    w.feed_at(&SlotTask::Main, 150);
    w.feed_at(&SlotTask::Blink, 150);
    assert!(!w.check_at(200));
}

#[test]
fn slot_zero_slots_refuse_every_task() {
    let (mut w, log, _time) = setup::<0>();
    assert_eq!(w.register_task(&SlotTask::Main, 100), Err(Error::NoSlotsAvailable));
    assert!(!w.check_at(1_000_000));
    assert_eq!(log.feeds.get(), 1);
}

#[test]
fn slot_deregistration_frees_a_slot() {
    let (mut w, _log, _time) = setup::<1>();
    assert_eq!(w.register_task_at(&SlotTask::Main, 100, 0), Ok(()));
    assert_eq!(w.register_task_at(&SlotTask::Blink, 100, 0), Err(Error::NoSlotsAvailable));
    w.deregister_task(&SlotTask::Main);
    assert_eq!(w.register_task_at(&SlotTask::Blink, 100, 0), Ok(()));
}

#[test]
fn slot_reregistering_replaces_the_record() {
    let (mut w, _log, _time) = setup::<2>();
    assert_eq!(w.register_task_at(&SlotTask::Main, 100, 0), Ok(()));
    assert_eq!(w.register_task_at(&SlotTask::Main, 1000, 0), Ok(()));
    // one record, with the new maximum
    assert!(!w.check_at(500));
    assert!(w.check_at(1000));
    w.feed_at(&SlotTask::Main, 900);
    assert!(!w.check_at(1500));
    // a single deregistration removes it
    w.deregister_task(&SlotTask::Main);
    assert!(!w.check_at(100_000));
    // the other slot was never taken
    assert_eq!(w.register_task_at(&SlotTask::Blink, 100, 0), Ok(()));
    assert_eq!(w.register_task_at(&SlotTask::Radio, 100, 0), Ok(()));
    assert_eq!(w.register_task_at(&SlotTask::Main, 100, 0), Err(Error::NoSlotsAvailable));
}

#[test]
fn slot_reregistering_fails_when_full() {
    let (mut w, _log, _time) = setup::<1>();
    assert_eq!(w.register_task_at(&SlotTask::Main, 100, 0), Ok(()));
    assert_eq!(w.register_task_at(&SlotTask::Blink, 100, 0), Err(Error::NoSlotsAvailable));
    // no slot is free, so even the held id is refused and its record kept
    assert_eq!(w.register_task_at(&SlotTask::Main, 300, 200), Err(Error::NoSlotsAvailable));
    assert!(!w.check_at(99));
    assert!(w.check_at(100));
}

#[test]
fn slot_register_then_deregister_restores() {
    let (mut w, _log, _time) = setup::<1>();
    assert_eq!(w.register_task_at(&SlotTask::Main, 100, 0), Ok(()));
    w.deregister_task(&SlotTask::Main);
    assert!(!w.check_at(10_000));
    assert_eq!(w.register_task_at(&SlotTask::Blink, 100, 0), Ok(()));
}

#[test]
fn slot_check_feeds_hardware_only_when_healthy() {
    let (mut w, log, time) = setup::<2>();
    assert_eq!(w.register_task(&SlotTask::Main, 2000), Ok(()));
    assert_eq!(w.register_task(&SlotTask::Blink, 3000), Ok(()));
    time.set(100);
    w.start();
    assert_eq!(log.started.get(), Some(5000));
    time.set(1100);
    w.feed(&SlotTask::Main);
    time.set(2500);
    assert!(!w.check());
    assert_eq!(log.feeds.get(), 1);
    time.set(3100);
    assert!(w.check());
    assert_eq!(log.feeds.get(), 1);
}

#[test]
fn slot_start_feeds_every_registered_task() {
    let (mut w, log, _time) = setup::<3>();
    assert_eq!(w.register_task_at(&SlotTask::Main, 100, 0), Ok(()));
    assert_eq!(w.register_task_at(&SlotTask::Radio, 300, 0), Ok(()));
    w.start_at(1000);
    assert_eq!(log.started.get(), Some(5000));
    assert!(!w.check_at(1099));
    assert!(w.check_at(1100));
}

#[test]
fn slot_feeding_unknown_task_changes_nothing() {
    let (mut w, _log, _time) = setup::<2>();
    assert_eq!(w.register_task_at(&SlotTask::Main, 100, 0), Ok(()));
    w.feed_at(&SlotTask::Blink, 90);
    assert!(w.check_at(100));
    w.deregister_task(&SlotTask::Blink);
    assert!(w.check_at(100));
}

#[test]
fn slot_reset_reason_comes_from_hardware() {
    let (w, _log, _time) = setup::<1>();
    assert_eq!(w.reset_reason(), None);
    assert_eq!(w.config().check_interval, 1000);
}
