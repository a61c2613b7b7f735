use scraping_engine::controller::{control_action, ControlAction, RunLedger};
use scraping_engine::{STEP_PAUSED, STEP_RUNNING, STEP_STOPPED};

#[test]
fn control_codes_map_to_actions() {
    assert_eq!(control_action(STEP_RUNNING), ControlAction::Proceed);
    assert_eq!(control_action(STEP_PAUSED), ControlAction::Wait);
    assert_eq!(control_action(STEP_STOPPED), ControlAction::Halt);
    // an unknown code proceeds, as the controller's fall-through arm does
    assert_eq!(control_action(9), ControlAction::Proceed);
}

#[test]
fn permits_are_counted_up_to_the_bound() {
    let mut c = RunLedger::new(2);
    c.acquire();
    c.acquire();
    // both permits held: the bound is reached
    assert_eq!(c.in_flight, 2);
    assert_eq!(c.limit, 2);
    c.complete();
    assert_eq!(c.in_flight, 1);
    c.acquire();
    assert_eq!(c.in_flight, 2);
}

#[test]
fn pause_keeps_the_permit_and_changes_nothing() {
    let mut c = RunLedger::new(1);
    c.acquire();
    let a = c.observe(STEP_PAUSED);
    assert_eq!(a, ControlAction::Wait);
    assert_eq!(c.in_flight, 1);
    assert!(!c.stopped);
    // once the flag moves on, the held permit dispatches as usual
    let a2 = c.observe(STEP_RUNNING);
    assert_eq!(a2, ControlAction::Proceed);
    c.dispatch();
    c.complete();
    assert!(c.drained());
}

#[test]
fn stop_releases_the_permit_and_bars_dispatch() {
    let mut c = RunLedger::new(2);
    c.acquire();
    c.dispatch();
    // a second tuple acquires, then observes the stop
    c.acquire();
    let a = c.observe(STEP_STOPPED);
    assert_eq!(a, ControlAction::Halt);
    assert!(c.stopped);
    // the in-flight task is still awaited before the run may return
    assert_eq!(c.in_flight, 1);
    assert!(!c.drained());
    c.complete();
    assert!(c.drained());
}

#[test]
fn a_stop_arriving_during_a_pause_is_honoured() {
    // the controller observes again after a pause ends, so a pause
    // followed by a stop dispatches nothing further
    let mut c = RunLedger::new(1);
    c.acquire();
    assert_eq!(c.observe(STEP_PAUSED), ControlAction::Wait);
    assert!(!c.stopped);
    assert_eq!(c.observe(STEP_STOPPED), ControlAction::Halt);
    assert!(c.stopped);
    assert!(c.drained());
}
