use evmap::epochs::WaitAction;
use evmap::operation::Operation;
use evmap::shallow_copy::ShallowCopy;
use evmap::write::{create, WriteHandle};
use std::collections::hash_map::RandomState;
use std::hash::Hash;
use std::ops::Deref;
use std::sync::Arc;

fn empty_map<K, V>() -> WriteHandle<K, V, (), RandomState>
where
    K: Eq + Hash + Clone,
    V: Eq + ShallowCopy,
{
    create((), RandomState::new())
}

/// Refreshes a map that has no other readers.
fn refresh<K, V, M>(w: &mut WriteHandle<K, V, M, RandomState>)
where
    K: Eq + Hash + Clone,
    V: Eq + ShallowCopy,
    M: 'static + Clone,
{
    w.refresh();
    w.record_epochs(&[]);
}

fn values_of<K, V>(w: &WriteHandle<K, V, (), RandomState>, key: &K) -> Option<Vec<V>>
where
    K: Eq + Hash + Clone,
    V: Eq + ShallowCopy,
{
    w.get_and(key, |vs| {
        let mut copies = Vec::new();
        for v in vs {
            copies.push(v.shallow_copy());
        }
        copies
    })
}

#[test]
fn writes_show_after_refresh() {
    let x = ('x', 42);
    let mut w = empty_map();

    // the map is uninitialized, so all lookups should return None
    assert_eq!(w.get_and(&x.0, |rs| rs.len()), None);

    refresh(&mut w);

    // after the first refresh, it is empty, but ready
    assert_eq!(w.get_and(&x.0, |rs| rs.len()), None);

    w.insert(x.0, x);

    // it is empty even after an add (we haven't refresh yet)
    assert_eq!(w.get_and(&x.0, |rs| rs.len()), None);

    refresh(&mut w);

    // but after the swap, the record is there!
    assert_eq!(w.get_and(&x.0, |rs| rs.len()), Some(1));
    assert_eq!(w.get_and(&x.0, |rs| rs.iter().any(|v| v.0 == x.0 && v.1 == x.1)), Some(true));
}

#[test]
fn pending_follows_the_log() {
    let x = ('x', 42);
    let mut w = empty_map();

    // before the first refresh, no oplog is kept
    refresh(&mut w);

    assert_eq!(w.pending(), &[]);
    w.insert(x.0, x);
    assert_eq!(w.pending(), &[Operation::Add(x.0, x)]);
    refresh(&mut w);
    w.remove(x.0, x);
    assert_eq!(w.pending(), &[Operation::Remove(x.0, x)]);
    refresh(&mut w);
    assert_eq!(w.pending(), &[]);
}

#[test]
fn pending_is_empty_before_the_first_refresh() {
    let mut w: WriteHandle<u64, u64> = empty_map();
    w.insert(1, 1);
    w.clear(2);
    assert!(w.pending().is_empty());
    refresh(&mut w);
    assert_eq!(w.len(), 2);
    assert_eq!(values_of(&w, &1), Some(vec![1]));
    assert_eq!(values_of(&w, &2), Some(vec![]));
}

#[test]
fn writes_before_the_first_refresh_reach_both_copies() {
    let mut w: WriteHandle<u64, u64> = empty_map();
    w.insert(1, 10);
    w.insert(2, 20);
    refresh(&mut w);
    w.insert(1, 11);
    // the second refresh carries the first copy over
    refresh(&mut w);
    assert_eq!(values_of(&w, &1), Some(vec![10, 11]));
    assert_eq!(values_of(&w, &2), Some(vec![20]));
    refresh(&mut w);
    assert_eq!(values_of(&w, &1), Some(vec![10, 11]));
    assert_eq!(values_of(&w, &2), Some(vec![20]));
    refresh(&mut w);
    assert_eq!(values_of(&w, &1), Some(vec![10, 11]));
}

#[test]
fn every_operation_reaches_both_copies() {
    let mut w: WriteHandle<u64, u64> = empty_map();
    refresh(&mut w);
    for round in 0..2u64 {
        w.insert(1, 10);
        w.insert(1, 11);
        w.insert(1, 12);
        w.remove(1, 10);
        w.insert(2, 20);
        w.update(2, 21);
        w.insert(3, 30);
        w.clear(3);
        w.clear(4);
        w.insert(5, 50);
        w.empty(5);
        w.empty(6);
        w.remove(7, 70);
        w.remove(1, 99);
        for _ in 0..4 {
            refresh(&mut w);
            // the last value takes the place of the removed one
            assert_eq!(values_of(&w, &1), Some(vec![12, 11]), "round {}", round);
            assert_eq!(values_of(&w, &2), Some(vec![21]));
            assert_eq!(values_of(&w, &3), Some(vec![]));
            assert_eq!(values_of(&w, &4), Some(vec![]));
            assert_eq!(values_of(&w, &5), None);
            assert_eq!(values_of(&w, &6), None);
            assert_eq!(values_of(&w, &7), None);
            assert_eq!(w.len(), 4);
        }
        w.empty(1);
    }
}

#[test]
fn remove_takes_the_first_equal_value_only() {
    let mut w: WriteHandle<u64, u64> = empty_map();
    w.insert(1, 5);
    w.insert(1, 6);
    w.insert(1, 5);
    w.insert(1, 7);
    w.remove(1, 5);
    refresh(&mut w);
    assert_eq!(values_of(&w, &1), Some(vec![7, 6, 5]));
    w.remove(1, 8);
    refresh(&mut w);
    assert_eq!(values_of(&w, &1), Some(vec![7, 6, 5]));
}

#[test]
fn operations_on_different_keys_commute() {
    let mut a: WriteHandle<u64, u64> = empty_map();
    let mut b: WriteHandle<u64, u64> = empty_map();
    a.extend(vec![(1, 10), (2, 20), (2, 21)]);
    b.extend(vec![(1, 10), (2, 20), (2, 21)]);
    a.update(1, 11);
    a.remove(2, 20);
    b.remove(2, 20);
    b.update(1, 11);
    refresh(&mut a);
    refresh(&mut b);
    for k in 1..3u64 {
        assert_eq!(values_of(&a, &k), values_of(&b, &k));
    }
    assert_eq!(values_of(&a, &1), Some(vec![11]));
    assert_eq!(values_of(&a, &2), Some(vec![21]));
}

#[test]
fn remove_undoes_insert_of_a_value_that_is_there() {
    let mut w: WriteHandle<u64, u64> = empty_map();
    w.insert(1, 5);
    w.insert(1, 6);
    refresh(&mut w);
    w.insert(1, 5);
    w.remove(1, 5);
    w.insert(2, 7);
    w.remove(2, 7);
    refresh(&mut w);
    // the order is kept, and a new key stays with no value
    assert_eq!(values_of(&w, &1), Some(vec![5, 6]));
    assert_eq!(values_of(&w, &2), Some(vec![]));
}

#[test]
fn remove_undoes_insert() {
    let mut w: WriteHandle<u64, u64> = empty_map();
    w.insert(1, 5);
    w.insert(1, 6);
    refresh(&mut w);
    w.insert(1, 7);
    w.remove(1, 7);
    refresh(&mut w);
    assert_eq!(values_of(&w, &1), Some(vec![5, 6]));
}

#[test]
fn operations_leave_other_keys_alone() {
    let mut w: WriteHandle<u64, u64> = empty_map();
    w.insert(1, 10);
    w.insert(2, 20);
    w.insert(3, 30);
    refresh(&mut w);
    w.empty(1);
    w.clear(2);
    refresh(&mut w);
    assert_eq!(values_of(&w, &1), None);
    assert_eq!(values_of(&w, &2), Some(vec![]));
    assert_eq!(values_of(&w, &3), Some(vec![30]));
}

#[test]
fn flush_makes_every_operation_visible() {
    let mut w: WriteHandle<u64, u64> = empty_map();
    // nothing has been written
    assert!(!w.has_unseen());
    assert!(!w.flush());
    assert_eq!(w.len(), 0);

    // before the first refresh writes are not logged, but readers get to see them
    w.insert(1, 2);
    assert!(w.pending().is_empty());
    assert!(w.has_unseen());
    assert_eq!(w.get_and(&1, |rs| rs.len()), None);
    assert!(w.flush());
    w.record_epochs(&[]);
    assert_eq!(w.get_and(&1, |rs| rs.len()), Some(1));
    assert_eq!(values_of(&w, &1), Some(vec![2]));

    assert!(!w.has_unseen());
    assert!(!w.flush());
    w.insert(1, 11);
    assert!(w.has_unseen());
    assert!(w.flush());
    w.record_epochs(&[]);
    assert_eq!(values_of(&w, &1), Some(vec![2, 11]));
    assert!(w.pending().is_empty());
    assert!(!w.flush());
}

#[test]
fn flush_leaves_a_map_that_is_empty_again() {
    let mut w: WriteHandle<u64, u64> = empty_map();
    w.insert(1, 2);
    w.empty(1);
    assert!(!w.flush());
    assert_eq!(w.get_and(&1, |rs| rs.len()), None);
    // a key without values is not nothing
    w.clear(1);
    assert!(w.flush());
    w.record_epochs(&[]);
    assert_eq!(w.get_and(&1, |rs| rs.len()), Some(0));
}

#[test]
fn meta_shows_after_refresh() {
    let mut w: WriteHandle<u64, u64, u64> = create(1, RandomState::new());
    assert_eq!(w.meta(), Some(&1));
    assert_eq!(w.set_meta(2), 1);
    assert_eq!(w.meta(), Some(&1));
    assert_eq!(w.set_meta(3), 2);
    refresh(&mut w);
    assert_eq!(w.meta(), Some(&3));
    refresh(&mut w);
    assert_eq!(w.meta(), Some(&3));
}

#[test]
fn empty_at_index_names_what_goes() {
    let mut w: WriteHandle<u64, u64> = empty_map();
    w.insert(7, 70);
    w.insert(8, 80);
    w.insert(8, 81);
    w.insert(9, 90);
    refresh(&mut w);
    assert_eq!(w.empty_at_index(1), Some((&8, &vec![80, 81])));
    assert_eq!(w.pending(), &[Operation::EmptyRandom(1)]);
    // readers still see the key
    assert_eq!(values_of(&w, &8), Some(vec![80, 81]));
    for _ in 0..3 {
        refresh(&mut w);
        assert_eq!(values_of(&w, &8), None);
        assert_eq!(values_of(&w, &7), Some(vec![70]));
        assert_eq!(values_of(&w, &9), Some(vec![90]));
        assert_eq!(w.len(), 2);
    }
    // the last key took the place of the one that went
    assert_eq!(w.empty_at_index(1), Some((&9, &vec![90])));
    refresh(&mut w);
    assert_eq!(w.len(), 1);
    assert_eq!(values_of(&w, &7), Some(vec![70]));
}

#[test]
fn empty_at_index_beyond_the_end_does_nothing() {
    let mut w: WriteHandle<u64, u64> = empty_map();
    w.insert(1, 10);
    // readers see nothing yet, so there is nothing to name
    assert_eq!(w.empty_at_index(3), None);
    refresh(&mut w);
    assert_eq!(w.empty_at_index(1), None);
    refresh(&mut w);
    assert_eq!(values_of(&w, &1), Some(vec![10]));
}

#[test]
fn empty_at_index_reads_the_readers_copy() {
    let mut w: WriteHandle<u64, u64> = empty_map();
    w.insert(1, 10);
    w.insert(2, 20);
    refresh(&mut w);
    refresh(&mut w);
    w.empty_at_index(0);
    refresh(&mut w);
    // the eviction has reached the readers' copy only
    assert_eq!(w.empty_at_index(0), Some((&2, &vec![20])));
    refresh(&mut w);
    assert_eq!(w.len(), 0);
    refresh(&mut w);
    assert_eq!(w.len(), 0);
}

#[test]
fn extend_inserts_each_pair() {
    let mut w: WriteHandle<u64, u64> = empty_map();
    w.extend(vec![(1, 10), (2, 20), (1, 11)]);
    refresh(&mut w);
    assert_eq!(values_of(&w, &1), Some(vec![10, 11]));
    assert_eq!(values_of(&w, &2), Some(vec![20]));
    w.extend(vec![(2, 21), (3, 30)]);
    assert_eq!(w.pending(), &[Operation::Add(2, 21), Operation::Add(3, 30)]);
    refresh(&mut w);
    assert_eq!(values_of(&w, &2), Some(vec![20, 21]));
    assert_eq!(values_of(&w, &3), Some(vec![30]));
}

#[test]
fn readers_see_all_of_a_refresh_or_none() {
    let mut w: WriteHandle<u64, String> = empty_map();
    w.insert(0, String::from("foo"));
    w.insert(1, String::from("bar"));
    w.insert(2, String::from("baz"));
    w.insert(3, String::from("qux"));
    assert_eq!(w.len(), 0);
    refresh(&mut w);
    assert_eq!(w.len(), 4);
    for _ in 0..10 {
        refresh(&mut w);
        assert_eq!(w.len(), 4);
    }
}

#[test]
fn keys_come_and_go_in_large_numbers() {
    let mut w: WriteHandle<u64, u64> = empty_map();
    for k in 0..500u64 {
        w.insert(k, k * 2);
    }
    refresh(&mut w);
    for k in 0..500u64 {
        if k % 3 == 0 {
            w.empty(k);
        }
    }
    refresh(&mut w);
    refresh(&mut w);
    assert_eq!(w.len(), 333);
    for k in 0..500u64 {
        let expected = if k % 3 == 0 { None } else { Some(vec![k * 2]) };
        assert_eq!(values_of(&w, &k), expected);
    }
}

#[test]
fn the_copies_share_values() {
    let value = Arc::new(5u64);
    let mut w: WriteHandle<u64, Arc<u64>> = empty_map();
    w.insert(1, Arc::clone(&value));
    refresh(&mut w);
    assert_eq!(Arc::strong_count(&value), 2);
    refresh(&mut w);
    // one for each copy
    assert_eq!(Arc::strong_count(&value), 3);
    w.empty(1);
    refresh(&mut w);
    assert_eq!(Arc::strong_count(&value), 2);
    refresh(&mut w);
    assert_eq!(Arc::strong_count(&value), 1);
}

#[test]
fn deref_gives_the_readers_side() {
    let mut w: WriteHandle<u64, u64> = empty_map();
    w.insert(1, 10);
    assert_eq!(w.deref().len(), 0);
    assert!(!w.deref().is_destroyed());
    refresh(&mut w);
    assert_eq!(w.deref().len(), 1);
    assert!(w.deref().inner().is_some());
}

#[test]
fn a_handle_without_readers_need_not_wait() {
    let mut w: WriteHandle<u64, u64> = empty_map();
    assert_eq!(w.wait(0), WaitAction::Departed);
    refresh(&mut w);
    assert_eq!(w.wait(0), WaitAction::Departed);
}

#[test]
fn a_handle_waits_for_its_readers() {
    let mut w: WriteHandle<u64, u64> = empty_map();
    // readers that have never been seen do not hold the writer up
    assert_eq!(w.wait(2), WaitAction::Load(0));
    assert_eq!(w.observe(0), WaitAction::Load(1));
    assert_eq!(w.observe(3), WaitAction::Departed);
    w.refresh();
    w.record_epochs(&[0, 3]);
    w.insert(1, 10);
    assert_eq!(w.wait(2), WaitAction::Load(0));
    assert_eq!(w.observe(0), WaitAction::Load(1));
    assert_eq!(w.observe(3), WaitAction::Load(1));
    assert_eq!(w.observe(4), WaitAction::Departed);
    w.refresh();
    w.record_epochs(&[0, 4]);
    assert_eq!(values_of(&w, &1), Some(vec![10]));
}
