use memfill::chunk::{
    needs_child, park_deadline, park_decision, Chunk, ChunkEvent, ParkDecision, WaitOutcome, NO_CHILD,
    PARK_POLL_NANOS, PARK_TIMEOUT_NANOS,
};

const ESRCH: i32 = 3;

#[test]
fn a_parked_child_makes_a_live_chunk() {
    let chunk = Chunk::new(4096, Some(1234));
    assert_eq!(chunk, Chunk { size: 4096, pid: 1234 });
    assert!(chunk.is_live());
    assert_eq!(chunk.size(), 4096);
}

#[test]
fn no_child_makes_the_inert_chunk() {
    let chunk = Chunk::new(4096, None);
    assert_eq!(chunk, Chunk { size: 0, pid: NO_CHILD });
    assert!(!chunk.is_live());
    assert_eq!(chunk.size(), 0);
}

#[test]
fn no_bytes_make_the_inert_chunk() {
    assert_eq!(Chunk::new(0, Some(1234)), Chunk { size: 0, pid: 0 });
    assert_eq!(Chunk::new(0, None), Chunk { size: 0, pid: 0 });
}

#[test]
fn a_process_id_that_names_no_process_makes_the_inert_chunk() {
    assert_eq!(Chunk::new(4096, Some(0)), Chunk { size: 0, pid: 0 });
    assert_eq!(Chunk::new(4096, Some(-1)), Chunk { size: 0, pid: 0 });
    assert_eq!(Chunk::new(4096, Some(i32::MIN)), Chunk { size: 0, pid: 0 });
}

#[test]
fn a_reaped_chunk_keeps_its_size_for_the_record_and_counts_nothing() {
    let mut chunk = Chunk::new(4096, Some(1234));
    chunk.settle(WaitOutcome::Signaled { pid: 1234, signal: 9 });
    assert_eq!(chunk, Chunk { size: 4096, pid: 0 });
    assert_eq!(chunk.size(), 0);
}

#[test]
fn every_outcome_but_unchanged_ends_the_child() {
    let outcomes = [
        (WaitOutcome::Exited { pid: 5, code: 0 }, true),
        (WaitOutcome::Exited { pid: 5, code: 134 }, true),
        (WaitOutcome::Signaled { pid: 5, signal: 9 }, true),
        (WaitOutcome::NoChild, true),
        (WaitOutcome::Failed { errno: 4 }, true),
        (WaitOutcome::Unchanged, false),
    ];
    for (outcome, ends) in outcomes {
        assert_eq!(outcome.is_final(), ends);
        let mut chunk = Chunk::new(100, Some(5));
        chunk.settle(outcome);
        assert_eq!(chunk.is_live(), !ends);
        assert_eq!(chunk.size(), if ends { 0 } else { 100 });
    }
}

#[test]
fn check_finds_that_a_stranger_is_no_child() {
    let mut chunk = Chunk::new(100, Some(i32::MAX));
    assert_eq!(chunk.check(), WaitOutcome::NoChild);
    assert_eq!(chunk, Chunk { size: 100, pid: 0 });
}

#[test]
fn wait_on_a_stranger_does_not_block() {
    let mut chunk = Chunk::new(100, Some(i32::MAX));
    assert_eq!(chunk.wait(false), WaitOutcome::NoChild);
    assert!(!chunk.is_live());
}

#[test]
fn free_of_an_inert_chunk_does_nothing() {
    let mut chunk = Chunk { size: 100, pid: 0 };
    let (freed, event) = chunk.free();
    assert_eq!(freed, 0);
    assert_eq!(event, ChunkEvent { chunk: Chunk { size: 100, pid: 0 }, outcome: None });
    assert_eq!(chunk, Chunk { size: 100, pid: 0 });
}

#[test]
fn free_gives_up_a_child_that_cannot_be_signalled() {
    let mut chunk = Chunk::new(100, Some(i32::MAX));
    let (freed, event) = chunk.free();
    assert_eq!(freed, 100);
    assert_eq!(
        event,
        ChunkEvent {
            chunk: Chunk { size: 100, pid: i32::MAX },
            outcome: Some(WaitOutcome::Failed { errno: ESRCH }),
        }
    );
    assert_eq!(chunk, Chunk { size: 100, pid: 0 });
    assert_eq!(chunk.free().0, 0);
}

#[test]
fn a_child_is_given_five_seconds_to_park() {
    assert_eq!(PARK_TIMEOUT_NANOS, 5_000_000_000);
    assert_eq!(PARK_POLL_NANOS, 50_000_000);
    assert_eq!(park_deadline(0), 5_000_000_000);
    assert_eq!(park_deadline(123), 5_000_000_123);
    assert_eq!(park_deadline(u64::MAX - 5_000_000_000), u64::MAX);
    assert_eq!(park_deadline(u64::MAX - 4_999_999_999), u64::MAX);
    assert_eq!(park_deadline(u64::MAX), u64::MAX);
}

#[test]
fn a_sleeping_child_is_parked_whatever_the_time() {
    assert_eq!(park_decision(true, 0, 100), ParkDecision::Parked);
    assert_eq!(park_decision(true, 101, 100), ParkDecision::Parked);
}

#[test]
fn a_child_that_does_not_sleep_is_tried_again_until_the_deadline_has_passed() {
    assert_eq!(park_decision(false, 0, 100), ParkDecision::Retry);
    assert_eq!(park_decision(false, 100, 100), ParkDecision::Retry);
    assert_eq!(park_decision(false, 101, 100), ParkDecision::GiveUp);
}

#[test]
fn a_chunk_without_a_child_has_none_to_wait_on() {
    let mut chunk = Chunk { size: 100, pid: 0 };
    assert_eq!(chunk.check(), WaitOutcome::NoChild);
    assert_eq!(chunk.wait(true), WaitOutcome::NoChild);
    assert_eq!(chunk.wait(false), WaitOutcome::NoChild);
    assert_eq!(chunk, Chunk { size: 100, pid: 0 });
}

#[test]
fn after_free_a_wait_finds_no_child() {
    let mut chunk = Chunk::new(100, Some(i32::MAX - 7));
    let (freed, _) = chunk.free();
    assert_eq!(freed, 100);
    assert_eq!(chunk.wait(false), WaitOutcome::NoChild);
    assert_eq!(chunk.size(), 0);
}

#[test]
fn a_chunk_whose_id_names_no_single_process_has_no_child() {
    for pid in [-1, -1234, i32::MIN] {
        let mut chunk = Chunk { size: 5, pid };
        assert!(!chunk.is_live());
        assert_eq!(chunk.size(), 0);
        assert_eq!(chunk.check(), WaitOutcome::NoChild);
        assert_eq!(chunk.wait(false), WaitOutcome::NoChild);
        chunk.settle(WaitOutcome::Exited { pid: 7, code: 0 });
        let (freed, event) = chunk.free();
        assert_eq!(freed, 0);
        assert_eq!(event, ChunkEvent { chunk: Chunk { size: 5, pid }, outcome: None });
        assert_eq!(chunk, Chunk { size: 5, pid });
    }
}

#[test]
fn only_a_request_for_some_bytes_calls_for_a_child() {
    assert!(!needs_child(0));
    assert!(needs_child(1));
    assert!(needs_child(usize::MAX));
}
