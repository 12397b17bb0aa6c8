use vstd::prelude::*;
use crate::pbus::cell::ReceiveCell;

verus! {

/// A read handle on a bus.
///
/// A reader issued by [`crate::pbus::BusSystem::sub`] remembers the
/// index of its channel and reads through
/// [`Reader::value_in`](crate::pbus); one issued by a stand-alone
/// [`Bus::subscribe`] reads that bus directly with [`Reader::value`].
pub struct Reader {
    pub(crate) chan: usize,
}

impl Reader {
    /// The index of the channel this reader was issued for.
    pub closed spec fn chan_spec(self) -> int {
        self.chan as int
    }

    /// The value the reader sees on a stand-alone bus: always the last
    /// published one.
    pub fn value<T: Copy>(&self, bus: &Bus<T>) -> (r: T)
        ensures
            r == bus.current(),
    {
        bus.read_current()
    }

    pub(crate) fn with_chan(chan: usize) -> (r: Reader)
        ensures
            r.chan_spec() == chan as int,
    {
        Reader { chan }
    }

    pub(crate) fn chan_index(&self) -> (r: usize)
        ensures
            r as int == self.chan_spec(),
    {
        self.chan
    }

    /// The reader for a given channel index, as contracts name it.
    pub closed spec fn spec_with_chan(chan: int) -> Reader {
        Reader { chan: chan as usize }
    }

    /// `spec_with_chan` holds the index it was given.
    pub proof fn lemma_with_chan_spec(chan: int)
        requires
            0 <= chan <= usize::MAX,
        ensures
            Reader::spec_with_chan(chan).chan_spec() == chan,
    {
    }

    /// A reader's channel index fits a machine word.
    pub proof fn lemma_chan_spec_range(r: Reader)
        ensures
            0 <= r.chan_spec() <= usize::MAX,
    {
    }

    /// A reader is nothing but its channel index.
    pub proof fn lemma_reader_ext(a: Reader, b: Reader)
        requires
            a.chan_spec() == b.chan_spec(),
        ensures
            a == b,
    {
    }
}

/// One broadcast channel: the last published value and the number of
/// readers that subscribed and have not yet unsubscribed.
///
/// Every `publish` lands in the backing [`ReceiveCell`]; readers pull
/// the current value from there, so a value published between two
/// reads is seen by the very next read.  A reader that is dropped
/// without `unsubscribe` only leaves the count behind; the channel
/// itself is never removed.
pub struct Bus<T> {
    cell: ReceiveCell<T>,
    subs: usize,
}

impl<T: Copy> Bus<T> {
    /// The last published value (or the initial one).
    pub closed spec fn current(self) -> T {
        self.cell.value_spec()
    }

    /// How many subscriptions are live.
    pub closed spec fn sub_count_spec(self) -> nat {
        self.subs as nat
    }

    pub fn new(initial_value: T) -> (r: Bus<T>)
        ensures
            r.current() == initial_value,
            r.sub_count_spec() == 0,
    {
        Bus { cell: ReceiveCell::new(initial_value), subs: 0 }
    }

    /// Hand out a reader.  Never fails; the reader sees the current
    /// value at once.  The count sticks at its ceiling rather than
    /// wrap.
    pub fn subscribe(&mut self) -> (r: Reader)
        ensures
            final(self).current() == old(self).current(),
            final(self).sub_count_spec() == if old(self).sub_count_spec() < usize::MAX {
                old(self).sub_count_spec() + 1
            } else {
                old(self).sub_count_spec()
            },
            r.chan_spec() == 0,
    {
        if self.subs < usize::MAX {
            self.subs = self.subs + 1;
        }
        Reader { chan: 0 }
    }

    /// Broadcast a value: every reader's next read returns it.
    pub fn publish(&mut self, value: T)
        ensures
            final(self).current() == value,
            final(self).sub_count_spec() == old(self).sub_count_spec(),
    {
        self.cell.set(value);
    }

    /// Give a reader back.  The count never goes below zero.
    pub fn unsubscribe(&mut self, _reader: Reader)
        ensures
            final(self).current() == old(self).current(),
            final(self).sub_count_spec() == if old(self).sub_count_spec() > 0 {
                (old(self).sub_count_spec() - 1) as nat
            } else {
                0nat
            },
    {
        if self.subs > 0 {
            self.subs = self.subs - 1;
        }
    }

    pub fn sub_count(&self) -> (r: usize)
        ensures
            r == self.sub_count_spec(),
    {
        self.subs
    }

    pub(crate) fn read_current(&self) -> (r: T)
        ensures
            r == self.current(),
    {
        self.cell.read()
    }
}

} // verus!
