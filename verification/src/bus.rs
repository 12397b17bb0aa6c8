use vstd::prelude::*;

verus! {

/// Whether a subscriber slot is still read by anyone.
#[derive(Debug, PartialEq, Eq, Clone, Copy)]
pub enum SlotState {
    /// The receiver is alive: every publish lands in this slot.
    Live,
    /// The receiver gave its handle back; the slot stays as a stub so
    /// that the other receivers' indices keep their meaning.
    Gone,
}

/// A read handle into one slot of a [`Bus`].
pub struct Receiver {
    idx: usize,
}

impl Receiver {
    /// Which slot of the bus this receiver reads.
    pub closed spec fn idx_spec(self) -> int {
        self.idx as int
    }

    /// The last value the bus put into this receiver's slot.
    pub fn value<T: Copy>(&self, bus: &Bus<T>) -> (r: T)
        requires
            0 <= self.idx_spec() < bus.slots_view().len(),
            bus.slots_view()[self.idx_spec()].0 is Live,
        ensures
            r == bus.slots_view()[self.idx_spec()].1,
    {
        bus.slots[self.idx].1
    }
}

/// A bus dispatches every call to `publish` to all its receivers.
///
/// Each subscription owns one slot in the bus; `publish` copies the
/// new value into every live slot, so a receiver always reads the
/// value of the latest publish (or the value the bus held when it
/// subscribed).  A receiver is detected dead only when its handle is
/// given back through [`Bus::unsubscribe`]; its slot then stays as a
/// stub and is no longer counted or written.
pub struct Bus<T> {
    id: String,
    last_value: T,
    slots: Vec<(SlotState, T)>,
}

/// How many of the first `k` slots are live.
pub open spec fn live_in<T>(v: Seq<(SlotState, T)>, k: int) -> nat
    decreases k,
{
    if k <= 0 {
        0
    } else {
        live_in(v, k - 1) + if v[k - 1].0 is Live {
            1nat
        } else {
            0nat
        }
    }
}

/// Slot counting only looks at the states.
proof fn lemma_live_in_congruent<T>(v1: Seq<(SlotState, T)>, v2: Seq<(SlotState, T)>, k: int)
    requires
        forall|i: int| 0 <= i < k ==> v1[i].0 == v2[i].0,
    ensures
        live_in(v1, k) == live_in(v2, k),
    decreases k,
{
    if k > 0 {
        lemma_live_in_congruent(v1, v2, k - 1);
    }
}

impl<T: Copy> Bus<T> {
    /// The bus's name.
    pub closed spec fn id_spec(self) -> Seq<char> {
        self.id@
    }

    /// The value the latest publish carried (or the initial value).
    pub closed spec fn last_value_spec(self) -> T {
        self.last_value
    }

    /// The subscriber slots: state and stored value, oldest first.
    pub closed spec fn slots_view(self) -> Seq<(SlotState, T)> {
        self.slots@
    }

    /// How many receivers are live.
    pub open spec fn count_spec(self) -> nat {
        live_in(self.slots_view(), self.slots_view().len() as int)
    }

    pub fn new(id: &str, initial_value: T) -> (r: Bus<T>)
        ensures
            r.id_spec() == id@,
            r.last_value_spec() == initial_value,
            r.slots_view() == Seq::<(SlotState, T)>::empty(),
    {
        Bus { id: id.to_owned(), last_value: initial_value, slots: Vec::new() }
    }

    /// Update every live receiver's slot.
    pub fn publish(&mut self, value: T)
        ensures
            final(self).id_spec() == old(self).id_spec(),
            final(self).last_value_spec() == value,
            final(self).slots_view().len() == old(self).slots_view().len(),
            forall|i: int|
                0 <= i < old(self).slots_view().len() ==> final(self).slots_view()[i].0 == old(
                    self,
                ).slots_view()[i].0,
            forall|i: int|
                0 <= i < old(self).slots_view().len() && old(self).slots_view()[i].0 is Live
                    ==> final(self).slots_view()[i].1 == value,
            forall|i: int|
                0 <= i < old(self).slots_view().len() && !(old(self).slots_view()[i].0 is Live)
                    ==> final(self).slots_view()[i].1 == old(self).slots_view()[i].1,
            final(self).count_spec() == old(self).count_spec(),
    {
        let mut i: usize = 0;
        while i < self.slots.len()
            invariant
                0 <= i <= self.slots@.len(),
                self.id == old(self).id,
                self.last_value == old(self).last_value,
                self.slots@.len() == old(self).slots@.len(),
                forall|j: int| 0 <= j < self.slots@.len() ==> self.slots@[j].0 == old(
                    self,
                ).slots@[j].0,
                forall|j: int|
                    0 <= j < i && old(self).slots@[j].0 is Live ==> self.slots@[j].1 == value,
                forall|j: int|
                    0 <= j < self.slots@.len() && !(j < i && old(self).slots@[j].0 is Live)
                        ==> self.slots@[j].1 == old(self).slots@[j].1,
            decreases self.slots@.len() - i,
        {
            if matches!(self.slots[i].0, SlotState::Live) {
                let v = self.slots[i].0;
                let slot = &mut self.slots[i];
                *slot = (v, value);
            }
            i = i + 1;
        }
        self.last_value = value;
        proof {
            lemma_live_in_congruent(
                final(self).slots_view(),
                old(self).slots_view(),
                old(self).slots_view().len() as int,
            );
        }
    }

    /// Hand out a receiver; its slot starts at the bus's last value.
    pub fn sub(&mut self) -> (r: Receiver)
        ensures
            final(self).id_spec() == old(self).id_spec(),
            final(self).last_value_spec() == old(self).last_value_spec(),
            final(self).slots_view() == old(self).slots_view().push(
                (SlotState::Live, old(self).last_value_spec()),
            ),
            r.idx_spec() == old(self).slots_view().len(),
            final(self).count_spec() == old(self).count_spec() + 1,
    {
        let i = self.slots.len();
        self.slots.push((SlotState::Live, self.last_value));
        proof {
            lemma_live_in_congruent(
                final(self).slots_view(),
                old(self).slots_view(),
                old(self).slots_view().len() as int,
            );
        }
        Receiver { idx: i }
    }

    /// Give a receiver back: its slot is no longer written or counted.
    pub fn unsubscribe(&mut self, receiver: Receiver)
        requires
            0 <= receiver.idx_spec() < old(self).slots_view().len(),
            old(self).slots_view()[receiver.idx_spec()].0 is Live,
        ensures
            final(self).id_spec() == old(self).id_spec(),
            final(self).last_value_spec() == old(self).last_value_spec(),
            final(self).slots_view() == old(self).slots_view().update(
                receiver.idx_spec(),
                (SlotState::Gone, old(self).slots_view()[receiver.idx_spec()].1),
            ),
            final(self).count_spec() == old(self).count_spec() - 1,
    {
        let i = receiver.idx;
        let v = self.slots[i].1;
        let slot = &mut self.slots[i];
        *slot = (SlotState::Gone, v);
        proof {
            lemma_unsub_count(old(self).slots_view(), final(self).slots_view(), i as int);
        }
    }

    /// How many receivers are live.
    pub fn subscriber_count(&self) -> (r: usize)
        ensures
            r == self.count_spec(),
    {
        let mut cnt: usize = 0;
        let mut i: usize = 0;
        while i < self.slots.len()
            invariant
                0 <= i <= self.slots@.len(),
                cnt == live_in(self.slots@, i as int),
                cnt <= i,
            decreases self.slots@.len() - i,
        {
            if matches!(self.slots[i].0, SlotState::Live) {
                cnt = cnt + 1;
            }
            i = i + 1;
        }
        cnt
    }
}

/// Marking one live slot gone lowers the live count by one.
proof fn lemma_unsub_count<T>(v1: Seq<(SlotState, T)>, v2: Seq<(SlotState, T)>, at: int)
    requires
        v1.len() == v2.len(),
        0 <= at < v1.len(),
        v1[at].0 is Live,
        v2[at].0 is Gone,
        forall|i: int| 0 <= i < v1.len() && i != at ==> v2[i].0 == v1[i].0,
    ensures
        live_in(v2, v2.len() as int) == live_in(v1, v1.len() as int) - 1,
{
    lemma_unsub_count_upto(v1, v2, at, v1.len() as int);
}

proof fn lemma_unsub_count_upto<T>(v1: Seq<(SlotState, T)>, v2: Seq<(SlotState, T)>, at: int, k: int)
    requires
        v1.len() == v2.len(),
        0 <= at < v1.len(),
        v1[at].0 is Live,
        v2[at].0 is Gone,
        forall|i: int| 0 <= i < v1.len() && i != at ==> v2[i].0 == v1[i].0,
        k <= v1.len(),
    ensures
        live_in(v2, k) == if at < k {
            live_in(v1, k) - 1
        } else {
            live_in(v1, k) as int
        },
    decreases k,
{
    if k > 0 {
        lemma_unsub_count_upto(v1, v2, at, k - 1);
    }
}

/// Why a bus operation failed.
#[derive(Debug, PartialEq)]
pub enum BusError {
    /// The named channel does not exist.
    NoSuchChannel(String),
}

} // verus!
