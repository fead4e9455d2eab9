use evmap::inner::Inner;
use evmap::operation::Operation;
use evmap::slot::Slot;
use evmap::write::WriteHandle;
use std::collections::hash_map::RandomState;

type MapCopy = Inner<u64, u64, (), RandomState>;
type Handle = WriteHandle<u64, u64>;

fn copy_with(pairs: &[(u64, u64)]) -> MapCopy {
    let mut inner = Inner::with_hasher((), RandomState::new());
    for (k, v) in pairs {
        Handle::apply_second(&mut inner, Operation::Add(*k, *v));
    }
    inner
}

fn entries(inner: &MapCopy) -> Vec<(u64, Vec<u64>)> {
    let mut found = Vec::new();
    for i in 0..inner.data.len() {
        let (k, vs) = inner.data.at_index(i).unwrap();
        found.push((*k, vs.clone()));
    }
    found
}

#[test]
fn equal_copies_are_equal_after_both_applications() {
    let start = [(1, 10), (2, 20), (1, 11), (3, 30)];
    let ops = || {
        vec![
            Operation::Replace(1, 12),
            Operation::Add(4, 40),
            Operation::Remove(2, 20),
            Operation::Remove(2, 21),
            Operation::Remove(9, 90),
            Operation::Clear(3),
            Operation::Clear(5),
            Operation::EmptyRandom(0),
            Operation::EmptyRandom(100),
            Operation::Empty(3),
            Operation::Empty(9),
        ]
    };
    let mut a = copy_with(&start);
    let mut b = copy_with(&start);
    for op in ops() {
        Handle::apply_first(&mut a, &op);
        Handle::apply_second(&mut b, op);
        assert_eq!(entries(&a), entries(&b));
    }
    assert_eq!(entries(&a), vec![(5, vec![]), (2, vec![]), (4, vec![40])]);
}

#[test]
fn applications_on_different_keys_commute() {
    let start = [(1, 10), (2, 20), (2, 21), (3, 30)];
    let mut a = copy_with(&start);
    let mut b = copy_with(&start);
    Handle::apply_second(&mut a, Operation::Empty(1));
    Handle::apply_second(&mut a, Operation::Remove(2, 20));
    Handle::apply_second(&mut b, Operation::Remove(2, 20));
    Handle::apply_second(&mut b, Operation::Empty(1));
    for k in 1..4u64 {
        assert_eq!(a.data.get(&k), b.data.get(&k));
    }
    assert_eq!(a.data.get(&1), None);
    assert_eq!(a.data.get(&2), Some(&vec![21]));
}

#[test]
fn a_copy_is_found_only_once_it_is_ready() {
    let mut inner = copy_with(&[(1, 10)]);
    assert_eq!(inner.lookup(&1), None);
    inner.mark_ready();
    assert_eq!(inner.lookup(&1), Some(&vec![10]));
    assert_eq!(inner.lookup(&2), None);
}

#[test]
fn a_slot_holds_its_value_when_it_moves() {
    let mut slot = Slot::new(5u64);
    *slot.get_mut() = 6;
    let moved = slot;
    assert_eq!(*moved.get(), 6);
}
