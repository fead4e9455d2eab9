//! A value on the heap that can be looked at while its owner changes.

use vstd::prelude::*;

verus! {

/// Holds one value, which stays where it is when the slot is moved or swapped.
///
/// Readers keep looking at a copy of the map while the slot that owns it passes
/// from one side to the other. A `Box` does not allow that: whenever it is moved,
/// it claims to be the only way to its value.
pub struct Slot<T> {
    cell: Vec<T>,
}

impl<T> View for Slot<T> {
    type V = T;

    closed spec fn view(&self) -> T {
        self.cell@[0]
    }
}

impl<T> Slot<T> {
    /// There is one value.
    pub closed spec fn wf(self) -> bool {
        self.cell@.len() == 1
    }

    /// A slot that holds `value`.
    pub fn new(value: T) -> (slot: Self)
        ensures
            slot.wf(),
            slot@ == value,
    {
        let mut cell: Vec<T> = Vec::with_capacity(1);
        cell.push(value);
        Slot { cell }
    }

    /// The value.
    pub fn get(&self) -> (value: &T)
        requires
            self.wf(),
        ensures
            *value == self@,
    {
        &self.cell[0]
    }

    /// The value, to be changed in place.
    pub fn get_mut(&mut self) -> (value: &mut T)
        requires
            old(self).wf(),
        ensures
            *value == old(self)@,
            final(self).wf(),
            final(self)@ == *final(value),
    {
        &mut self.cell[0]
    }
}

} // verus!
