use evmap::epochs::WaitAction;
use evmap::shallow_copy::ShallowCopy;
use evmap::write::teardown::{Teardown, TeardownAction};
use evmap::write::{create, WriteHandle};
use std::collections::hash_map::RandomState;
use std::sync::Arc;

fn map_with(pairs: Vec<(u64, u64)>) -> WriteHandle<u64, u64> {
    let mut w = create((), RandomState::new());
    w.extend(pairs);
    w
}

/// Takes one step in the end of a map that has no other readers.
fn advance<V>(teardown: &mut Teardown<u64, V, (), RandomState>) -> TeardownAction
where
    V: Eq + ShallowCopy,
{
    let action = teardown.advance();
    teardown.record_epochs(&[]);
    action
}

#[test]
fn a_destroyed_map_is_taken_from_the_readers() {
    let mut w = map_with(vec![(1, 10), (2, 20)]);
    w.refresh();
    w.record_epochs(&[]);
    w.insert(3, 30);
    let mut teardown = w.destroy();
    assert_eq!(teardown.reader().len(), 2);
    assert_eq!(advance(&mut teardown), TeardownAction::Publish);
    assert_eq!(teardown.reader().len(), 3);
    assert_eq!(advance(&mut teardown), TeardownAction::Publish);
    assert_eq!(teardown.reader().len(), 3);
    assert!(!teardown.reader().is_destroyed());
    assert_eq!(advance(&mut teardown), TeardownAction::Withdraw);
    assert!(teardown.reader().is_destroyed());
    assert_eq!(teardown.reader().len(), 0);
    assert_eq!(teardown.reader().get_and(&1, |vs| vs.len()), None);
    assert_eq!(teardown.reader().meta(), None);
    assert_eq!(advance(&mut teardown), TeardownAction::Finished);
    assert!(teardown.reader().is_destroyed());
}

#[test]
fn a_fresh_map_can_be_destroyed() {
    let mut teardown = map_with(vec![(1, 10)]).destroy();
    assert_eq!(advance(&mut teardown), TeardownAction::Publish);
    assert_eq!(teardown.reader().get_and(&1, |vs| vs.len()), Some(1));
    assert_eq!(advance(&mut teardown), TeardownAction::Publish);
    assert_eq!(advance(&mut teardown), TeardownAction::Withdraw);
    assert_eq!(advance(&mut teardown), TeardownAction::Finished);
    assert!(teardown.reader().is_destroyed());
}

#[test]
fn closing_shows_every_logged_write() {
    let mut w = map_with(vec![(1, 10)]);
    w.refresh();
    w.record_epochs(&[]);
    w.refresh();
    w.record_epochs(&[]);
    w.insert(1, 11);
    w.insert(2, 20);
    let mut teardown = w.close();
    assert_eq!(advance(&mut teardown), TeardownAction::Publish);
    assert_eq!(advance(&mut teardown), TeardownAction::Publish);
    assert_eq!(advance(&mut teardown), TeardownAction::Finished);
    assert!(!teardown.reader().is_destroyed());
    assert_eq!(teardown.reader().len(), 2);
    assert_eq!(teardown.reader().get_and(&1, |vs| vs.to_vec()), Some(vec![10, 11]));
    assert_eq!(teardown.reader().get_and(&2, |vs| vs.to_vec()), Some(vec![20]));
}

#[test]
fn closing_with_half_replayed_log_takes_one_refresh() {
    let mut w = map_with(vec![]);
    w.refresh();
    w.record_epochs(&[]);
    w.refresh();
    w.record_epochs(&[]);
    w.insert(1, 10);
    w.refresh();
    w.record_epochs(&[]);
    let mut teardown = w.close();
    assert_eq!(advance(&mut teardown), TeardownAction::Publish);
    assert_eq!(advance(&mut teardown), TeardownAction::Finished);
    assert_eq!(teardown.reader().get_and(&1, |vs| vs.to_vec()), Some(vec![10]));
}

#[test]
fn closing_with_an_empty_log_takes_no_refresh() {
    // nothing has ever been shown to readers, and nothing is
    let mut teardown = map_with(vec![(1, 10)]).close();
    assert_eq!(advance(&mut teardown), TeardownAction::Finished);
    assert_eq!(teardown.reader().get_and(&1, |vs| vs.len()), None);
}

#[test]
fn every_value_is_released_once() {
    let value = Arc::new(7u64);
    let mut w: WriteHandle<u64, Arc<u64>> = create((), RandomState::new());
    w.insert(1, Arc::clone(&value));
    w.refresh();
    w.record_epochs(&[]);
    w.update(2, Arc::clone(&value));
    w.insert(2, Arc::clone(&value));
    let mut teardown = w.destroy();
    while advance(&mut teardown) != TeardownAction::Finished {}
    assert_eq!(Arc::strong_count(&value), 1);

    let mut w: WriteHandle<u64, Arc<u64>> = create((), RandomState::new());
    w.insert(1, Arc::clone(&value));
    w.refresh();
    w.record_epochs(&[]);
    w.refresh();
    w.record_epochs(&[]);
    let mut teardown = w.close();
    while advance(&mut teardown) != TeardownAction::Finished {}
    // readers still hold theirs
    assert_eq!(Arc::strong_count(&value), 2);
    drop(teardown);
    assert_eq!(Arc::strong_count(&value), 1);
}

#[test]
fn a_teardown_waits_for_readers() {
    let mut teardown = map_with(vec![(1, 10)]).destroy();
    assert_eq!(teardown.wait(1), WaitAction::Load(0));
    assert_eq!(teardown.observe(0), WaitAction::Departed);
    assert_eq!(teardown.advance(), TeardownAction::Publish);
    teardown.record_epochs(&[5]);
    assert_eq!(teardown.wait(1), WaitAction::Load(0));
    assert_eq!(teardown.observe(5), WaitAction::Load(0));
    assert_eq!(teardown.observe(6), WaitAction::Departed);
    assert_eq!(teardown.advance(), TeardownAction::Publish);
    teardown.record_epochs(&[usize::MAX]);
    assert_eq!(teardown.wait(1), WaitAction::Departed);
    assert_eq!(teardown.advance(), TeardownAction::Withdraw);
    teardown.record_epochs(&[8]);
    assert_eq!(teardown.wait(1), WaitAction::Load(0));
    assert_eq!(teardown.observe(9), WaitAction::Departed);
    assert_eq!(teardown.advance(), TeardownAction::Finished);
}
