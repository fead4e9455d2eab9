use evmap::epochs::{EpochTracker, WaitAction, EAGER_RETRIES};

const DONE: usize = 1 << (usize::BITS - 1);

fn tracker_after(epochs: &[usize]) -> EpochTracker {
    let mut tracker = EpochTracker::new();
    let mut action = tracker.wait(epochs.len());
    while action != WaitAction::Departed {
        action = tracker.observe(0);
    }
    tracker.swapped();
    tracker.record(epochs);
    tracker
}

#[test]
fn no_readers_no_wait() {
    let mut tracker = EpochTracker::new();
    assert_eq!(tracker.wait(0), WaitAction::Departed);
}

#[test]
fn finished_readers_are_passed_over() {
    let mut tracker = tracker_after(&[DONE | 4, DONE | 9, 7, DONE]);
    assert_eq!(tracker.wait(4), WaitAction::Load(2));
    assert_eq!(tracker.observe(8), WaitAction::Departed);

    let mut tracker = tracker_after(&[DONE | 1, DONE | 2]);
    assert_eq!(tracker.wait(2), WaitAction::Departed);
}

#[test]
fn the_highest_bit_alone_marks_a_finished_reader() {
    let mut tracker = tracker_after(&[DONE - 1, DONE, usize::MAX]);
    assert_eq!(tracker.wait(3), WaitAction::Load(0));
    assert_eq!(tracker.observe(DONE), WaitAction::Departed);
}

#[test]
fn a_reader_has_moved_when_its_epoch_changes_or_it_finishes() {
    let mut tracker = tracker_after(&[1, 2, 0]);
    assert_eq!(tracker.wait(3), WaitAction::Load(0));
    assert_eq!(tracker.observe(3), WaitAction::Load(1));
    assert_eq!(tracker.observe(DONE | 2), WaitAction::Load(2));
    // it has never read
    assert_eq!(tracker.observe(0), WaitAction::Departed);
}

#[test]
fn the_writer_yields_after_some_eager_retries() {
    let mut tracker = tracker_after(&[1, 1]);
    assert_eq!(tracker.wait(2), WaitAction::Load(0));
    assert_eq!(EAGER_RETRIES, 20);
    for _ in 0..12 {
        assert_eq!(tracker.observe(1), WaitAction::Load(0));
    }
    // the count goes on with the next reader
    assert_eq!(tracker.observe(2), WaitAction::Load(1));
    for _ in 0..8 {
        assert_eq!(tracker.observe(1), WaitAction::Load(1));
    }
    for _ in 0..3 {
        assert_eq!(tracker.observe(1), WaitAction::YieldAndLoad(1));
    }
    assert_eq!(tracker.observe(2), WaitAction::Departed);

    // and begins anew with the next wait
    tracker.swapped();
    tracker.record(&[2, 2]);
    assert_eq!(tracker.wait(2), WaitAction::Load(0));
    assert_eq!(tracker.observe(2), WaitAction::Load(0));
}

#[test]
fn new_readers_never_delay_the_writer() {
    let mut tracker = tracker_after(&[DONE]);
    assert_eq!(tracker.wait(3), WaitAction::Load(1));
    assert_eq!(tracker.observe(0), WaitAction::Load(2));
    assert_eq!(tracker.observe(5), WaitAction::Departed);
}

#[test]
fn fewer_readers_are_waited_for_when_some_are_gone() {
    let mut tracker = tracker_after(&[1, 1, 1]);
    assert_eq!(tracker.wait(1), WaitAction::Load(0));
    assert_eq!(tracker.observe(2), WaitAction::Departed);
}

#[test]
fn one_look_each_is_enough_once_readers_finish() {
    let mut tracker = tracker_after(&[1, 2, 3, 4]);
    let mut action = tracker.wait(4);
    for _ in 0..4 {
        assert_ne!(action, WaitAction::Departed);
        action = tracker.observe(DONE | 6);
    }
    assert_eq!(action, WaitAction::Departed);
}
