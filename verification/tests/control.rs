use memfill::control::{
    adjust_oom_score, oom_score_adj, ControlLoop, OOM_SCORE_EXEMPT, OOM_SCORE_NEUTRAL,
    STATUS_INTERVAL_NANOS, TICK_NANOS,
};

const SECOND: u64 = 1_000_000_000;

#[test]
fn the_loop_ticks_every_fifty_milliseconds() {
    assert_eq!(TICK_NANOS, 50_000_000);
    assert_eq!(STATUS_INTERVAL_NANOS, 5 * SECOND);
}

#[test]
fn the_loop_runs_until_the_deadline() {
    let clock = ControlLoop::new(10 * SECOND, 3 * SECOND);
    assert!(clock.running(10 * SECOND));
    assert!(clock.running(13 * SECOND - 1));
    assert!(!clock.running(13 * SECOND));
    assert!(!clock.running(u64::MAX));
}

#[test]
fn a_loop_of_no_duration_does_not_run() {
    assert!(!ControlLoop::new(SECOND, 0).running(SECOND));
}

#[test]
fn a_deadline_beyond_the_clock_is_the_end_of_the_clock() {
    let clock = ControlLoop::new(u64::MAX - 5, 10);
    assert!(clock.running(u64::MAX - 1));
    assert!(!clock.running(u64::MAX));
}

#[test]
fn the_first_status_is_due_as_soon_as_time_has_passed() {
    let mut clock = ControlLoop::new(SECOND, 60 * SECOND);
    assert!(!clock.status_due(SECOND));
    assert!(clock.status_due(SECOND + 1));
}

#[test]
fn the_next_status_is_due_more_than_five_seconds_later() {
    let mut clock = ControlLoop::new(0, 60 * SECOND);
    assert!(clock.status_due(SECOND));
    assert!(!clock.status_due(SECOND + 1));
    assert!(!clock.status_due(6 * SECOND));
    assert!(clock.status_due(6 * SECOND + 1));
    assert!(!clock.status_due(11 * SECOND + 1));
    assert!(clock.status_due(11 * SECOND + 2));
    assert!(clock.running(11 * SECOND + 2));
}

#[test]
fn no_status_is_due_once_the_clock_is_at_its_end() {
    let mut clock = ControlLoop::new(0, 60 * SECOND);
    assert!(clock.status_due(u64::MAX - 1));
    assert!(!clock.status_due(u64::MAX));
}

#[test]
fn a_privileged_process_asks_for_exemption() {
    assert_eq!(OOM_SCORE_EXEMPT, -1000);
    assert_eq!(OOM_SCORE_NEUTRAL, 0);
    assert_eq!(oom_score_adj(0, 0), -1000);
    assert_eq!(oom_score_adj(0, 1000), -1000);
    assert_eq!(oom_score_adj(1000, 0), -1000);
    assert_eq!(oom_score_adj(1000, 1000), 0);
    assert_eq!(oom_score_adj(1, u32::MAX), 0);
}

#[test]
fn this_process_asks_for_what_its_user_ids_call_for() {
    let expected = oom_score_adj(
        nix::unistd::Uid::current().as_raw(),
        nix::unistd::Uid::effective().as_raw(),
    );
    assert_eq!(adjust_oom_score(), expected);
}
