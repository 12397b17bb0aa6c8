use vstd::prelude::*;

verus! {

/// The backing store of a bus channel: two slots and a flag naming the
/// slot that holds the current value.
///
/// `set` writes the *other* slot first and flips the flag last, so the
/// slot that was valid before the write is never touched (the third
/// clause of `set`'s contract).  On a platform that publishes the flag
/// with release/acquire ordering this discipline is what lets one
/// writer update the cell while readers keep reading: a reader that
/// still sees the old flag finds the old value intact, never a torn
/// one.  The writing side must stay single: this type enforces that by
/// shape, taking `&mut self` for `set`.
pub struct ReceiveCell<T> {
    v1: T,
    v2: T,
    flag_: bool,
}

impl<T: Copy> ReceiveCell<T> {
    /// The slot named by a flag value.
    pub closed spec fn slot(self, f: bool) -> T {
        if f {
            self.v2
        } else {
            self.v1
        }
    }

    /// The flag as stored.
    pub closed spec fn flag(self) -> bool {
        self.flag_
    }

    /// The value a read returns: the slot the flag names.
    pub open spec fn value_spec(self) -> T {
        self.slot(self.flag())
    }

    pub fn new(initial: T) -> (r: ReceiveCell<T>)
        ensures
            r.value_spec() == initial,
    {
        ReceiveCell { v1: initial, v2: initial, flag_: false }
    }

    /// Store a new value: fill the spare slot, then flip the flag.
    /// The slot that held the previous value keeps it.
    pub fn set(&mut self, val: T)
        ensures
            final(self).value_spec() == val,
            final(self).flag() == !old(self).flag(),
            final(self).slot(old(self).flag()) == old(self).slot(old(self).flag()),
    {
        if self.flag_ {
            self.v1 = val;
            self.flag_ = false;
        } else {
            self.v2 = val;
            self.flag_ = true;
        }
    }

    /// Read the current value.
    pub fn read(&self) -> (r: T)
        ensures
            r == self.value_spec(),
    {
        if self.flag_ {
            self.v2
        } else {
            self.v1
        }
    }
}

} // verus!
