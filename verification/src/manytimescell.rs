//! A cell that hands out exclusive access to its value many times, until it
//! is frozen by the first shared read; after that it is read-only.  The
//! freeze is a verified state change, and borrowing a frozen cell mutably
//! is a fatal caller error, excluded by precondition.

use vstd::prelude::*;

verus! {

pub struct ManyTimesCell<T> {
    value: T,
    frozen: bool,
}

impl<T> ManyTimesCell<T> {
    /// The stored value.
    pub closed spec fn value_spec(self) -> T {
        self.value
    }

    /// Whether the cell has been frozen by a shared read.
    pub closed spec fn frozen_spec(self) -> bool {
        self.frozen
    }

    pub fn new(value: T) -> (r: Self)
        ensures
            r.value_spec() == value,
            !r.frozen_spec(),
    {
        ManyTimesCell { value, frozen: false }
    }

    /// Exclusive access to the value; borrowing a frozen cell mutably is a
    /// fatal caller error and is excluded by precondition.
    pub fn get_mut(&mut self) -> (r: &mut T)
        requires
            !old(self).frozen_spec(),
        ensures
            *r == old(self).value_spec(),
            final(self).value_spec() == *final(r),
            !final(self).frozen_spec(),
    {
        &mut self.value
    }

    /// Shared access to the value; freezes the cell, so no exclusive access
    /// can follow.
    pub fn get(&mut self) -> (r: &T)
        ensures
            *r == old(self).value_spec(),
            final(self).value_spec() == old(self).value_spec(),
            final(self).frozen_spec(),
    {
        self.frozen = true;
        &self.value
    }

    pub fn into_inner(self) -> (r: T)
        ensures
            r == self.value_spec(),
    {
        self.value
    }
}

} // verus!
