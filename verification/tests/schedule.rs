use task_watchdog::schedule::{next_check_deadline, runner_step, RunnerAction};

#[test]
fn next_deadline_adds_one_interval() {
    assert_eq!(next_check_deadline(1000, 500), Some(1500));
    assert_eq!(next_check_deadline(u64::MAX - 5, 5), Some(u64::MAX));
    assert_eq!(next_check_deadline(u64::MAX - 5, 6), None);
}

#[test]
fn first_step_starts_and_sets_the_first_deadline() {
    assert_eq!(runner_step(false, 0, 200, 1000), (true, 1200, RunnerAction::Start));
}

#[test]
fn later_steps_keep_a_fixed_grid() {
    let (started, deadline, action) = runner_step(false, 0, 200, 1000);
    assert_eq!(action, RunnerAction::Start);
    // the clock reading no longer moves the grid once started
    let (started, deadline, action) = runner_step(started, deadline, 5000, 1000);
    assert_eq!(action, RunnerAction::CheckThenSleepUntil(1200));
    let (_, deadline, action) = runner_step(started, deadline, 7, 1000);
    assert_eq!(action, RunnerAction::CheckThenSleepUntil(2200));
    assert_eq!(deadline, 3200);
}
