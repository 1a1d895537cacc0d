use energibridge::{
    check_interval, remaining_sleep, start_rapl, start_rapl_impl, Action, ChildStatus, Event,
    Phase, RaplDriver, RaplError, RegisterAccess, Sampler, CANCELLED_EXIT_CODE,
    FAILURE_EXIT_CODE, TIMEOUT_EXIT_CODE,
};

fn rows(actions: &[Action]) -> usize {
    actions
        .iter()
        .filter(|a| matches!(a, Action::EmitAndCollect | Action::EmitFinalAndExit(_)))
        .count()
}

/// Drives a sampler with a simulated clock: each collection takes `spent`
/// ms, the child exits after `exit_after` collections.
fn simulate(interval: u64, budget: u64, spent: u64, exit_after: Option<usize>, cancel_at: Option<usize>) -> Vec<Action> {
    let mut s = Sampler::new(interval, budget);
    let mut actions = vec![s.step(Event::Spawned)];
    let mut now: u64 = 0;
    let mut collections = 0;
    let mut ticks = 0;
    loop {
        let a = s.step(Event::Tick { elapsed_ms: now, cancelled: cancel_at == Some(ticks) });
        ticks += 1;
        actions.push(a);
        match a {
            Action::EmitAndCollect => {
                collections += 1;
                let child = if exit_after.map_or(false, |n| collections >= n) {
                    ChildStatus::Exited(3)
                } else {
                    ChildStatus::StillRunning
                };
                let b = s.step(Event::Collected { child, spent_ms: spent });
                actions.push(b);
                match b {
                    Action::Sleep(ms) => now += spent + ms,
                    Action::Finish => {
                        actions.push(s.step(Event::Finished));
                        break;
                    }
                    other => panic!("unexpected {:?}", other),
                }
            }
            Action::KillChild => {
                actions.push(s.step(Event::Finished));
                break;
            }
            other => panic!("unexpected {:?}", other),
        }
    }
    assert_eq!(s.phase, Phase::Terminated);
    actions
}

#[test]
fn instantly_exiting_child_gives_two_rows() {
    let a = simulate(100, 1000, 5, Some(1), None);
    assert_eq!(rows(&a), 2);
    assert_eq!(*a.last().unwrap(), Action::EmitFinalAndExit(3));
}

#[test]
fn budgeted_run_gives_at_most_eleven_rows() {
    let a = simulate(100, 1000, 5, None, None);
    assert!(rows(&a) >= 2 && rows(&a) <= 11);
    assert_eq!(rows(&a), 11);
    assert_eq!(*a.last().unwrap(), Action::EmitFinalAndExit(TIMEOUT_EXIT_CODE));
}

#[test]
fn cancellation_kills_and_exits_with_cancel_code() {
    let a = simulate(100, 0, 5, Some(10), Some(3));
    assert!(a.contains(&Action::KillChild));
    assert_eq!(*a.last().unwrap(), Action::EmitFinalAndExit(CANCELLED_EXIT_CODE));
    assert_eq!(rows(&a), 4);
}

#[test]
fn events_after_stopping_are_ignored() {
    let mut s = Sampler::new(100, 0);
    s.step(Event::Spawned);
    assert_eq!(s.step(Event::Tick { elapsed_ms: 50, cancelled: true }), Action::KillChild);
    assert_eq!(s.step(Event::Collected { child: ChildStatus::Exited(0), spent_ms: 1 }), Action::Ignore);
    assert_eq!(s.step(Event::Tick { elapsed_ms: 60, cancelled: false }), Action::Ignore);
    assert_eq!(s.step(Event::Finished), Action::EmitFinalAndExit(CANCELLED_EXIT_CODE));
    assert_eq!(s.exit_code, CANCELLED_EXIT_CODE);
}

#[test]
fn timeout_is_checked_before_cancellation() {
    let mut s = Sampler::new(100, 1000);
    s.step(Event::Spawned);
    assert_eq!(s.step(Event::Tick { elapsed_ms: 1000, cancelled: true }), Action::KillChild);
    assert_eq!(s.exit_code, TIMEOUT_EXIT_CODE);
}

#[test]
fn spawn_failure_exits_with_failure_code() {
    let mut s = Sampler::new(200, 0);
    assert_eq!(s.step(Event::SpawnFailed), Action::Exit(FAILURE_EXIT_CODE));
    assert_eq!(s.phase, Phase::Terminated);
}

#[test]
fn failed_wait_kills_the_child() {
    let mut s = Sampler::new(200, 0);
    assert_eq!(s.step(Event::Spawned), Action::CollectInitial);
    assert_eq!(s.step(Event::Tick { elapsed_ms: 0, cancelled: false }), Action::EmitAndCollect);
    assert_eq!(s.step(Event::Collected { child: ChildStatus::WaitFailed, spent_ms: 3 }), Action::KillChild);
    assert_eq!(s.step(Event::Finished), Action::EmitFinalAndExit(FAILURE_EXIT_CODE));
}

#[test]
fn sleep_is_the_rest_of_the_interval() {
    assert_eq!(remaining_sleep(200, 30), 170);
    assert_eq!(remaining_sleep(200, 200), 0);
    assert_eq!(remaining_sleep(200, 450), 0);
    let mut s = Sampler::new(200, 0);
    s.step(Event::Spawned);
    s.step(Event::Tick { elapsed_ms: 0, cancelled: false });
    assert_eq!(s.step(Event::Collected { child: ChildStatus::StillRunning, spent_ms: 30 }), Action::Sleep(170));
}

#[test]
fn interval_floor_is_enforced() {
    let c = check_interval(100, 200);
    assert_eq!(c.interval_ms, 200);
    assert!(c.below_minimum);
    let c = check_interval(300, 200);
    assert_eq!(c.interval_ms, 300);
    assert!(!c.below_minimum);
}

#[test]
fn driver_opens_once() {
    let mut d = RaplDriver::new();
    assert_eq!(d.handle(), None);
    assert_eq!(start_rapl_impl(&mut d, true, Ok(77)), Ok(77));
    assert_eq!(d.handle(), Some(77));
    assert_eq!(start_rapl_impl(&mut d, false, Ok(5)), Ok(77));
    assert_eq!(d.handle(), Some(77));
}

#[test]
fn driver_needs_elevation_and_a_device() {
    let mut d = RaplDriver::new();
    assert_eq!(start_rapl_impl(&mut d, false, Ok(1)), Err(RaplError::NotElevated));
    assert_eq!(start_rapl_impl(&mut d, true, Err(-2)), Err(RaplError::Windows(-2)));
    assert_eq!(d.handle(), None);
}

#[test]
fn file_access_needs_no_driver() {
    let mut d = RaplDriver::new();
    assert_eq!(start_rapl(RegisterAccess::File, &mut d, false, Err(1)), Ok(()));
    assert_eq!(d.handle(), None);
    assert_eq!(start_rapl(RegisterAccess::Driver, &mut d, true, Ok(9)), Ok(()));
    assert_eq!(d.handle(), Some(9));
}
