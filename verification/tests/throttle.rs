use aprz::throttle::{PauseSchedule, MIN_PAUSE_EXTENSION};

const SEC: u64 = 1_000_000_000;

#[test]
fn starts_unpaused() {
    let s = PauseSchedule::new();
    assert!(!s.is_paused());
}

#[test]
fn pause_then_resume_when_due() {
    let mut s = PauseSchedule::new();
    assert!(s.pause_for(10 * SEC, 5 * SEC));
    assert!(s.is_paused());
    assert!(!s.resume_if_due(14 * SEC));
    assert!(s.is_paused());
    assert!(s.resume_if_due(15 * SEC));
    assert!(!s.is_paused());
}

#[test]
fn shorter_or_similar_pause_is_ignored() {
    let mut s = PauseSchedule::new();
    assert!(s.pause_for(0, 60 * SEC));
    // ends earlier
    assert!(!s.pause_for(10 * SEC, 10 * SEC));
    // ends less than the minimum extension later
    assert!(!s.pause_for(0, 60 * SEC + MIN_PAUSE_EXTENSION));
    // ends later by more than the minimum extension
    assert!(s.pause_for(0, 60 * SEC + MIN_PAUSE_EXTENSION + 1));
}

#[test]
fn longer_pause_survives_the_shorter_wake_up() {
    let mut s = PauseSchedule::new();
    assert!(s.pause_for(0, 5 * SEC));
    assert!(s.pause_for(1 * SEC, 30 * SEC));
    // the first pause's sleep ends at 5 s, but the longer pause is still due
    assert!(!s.resume_if_due(5 * SEC));
    assert!(s.is_paused());
    assert!(s.resume_if_due(31 * SEC));
    assert!(!s.is_paused());
}

#[test]
fn resume_without_pause_does_nothing() {
    let mut s = PauseSchedule::new();
    assert!(!s.resume_if_due(100 * SEC));
    assert!(!s.is_paused());
}
