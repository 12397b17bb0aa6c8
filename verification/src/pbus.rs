pub mod bus;
pub mod cell;

pub use bus::Bus;
pub use bus::Reader;

use vstd::prelude::*;

verus! {

/// Why a bus operation failed.
#[derive(Debug, PartialEq)]
pub enum BusError {
    /// `publish` named a channel that nobody ever subscribed to.
    NoSuchChannel(String),
}

/// The channels of a bus system as the contracts see them: for each
/// channel, in creation order, its name and its current value.
pub type ChannelsView<T> = Seq<(Seq<char>, T)>;

/// Whether a channel of this name exists.
pub open spec fn view_has<T>(v: ChannelsView<T>, chan: Seq<char>) -> bool {
    exists|i: int| 0 <= i < v.len() && v[i].0 == chan
}

/// The index of the channel of this name (unique when the view is
/// well formed).
pub open spec fn view_index<T>(v: ChannelsView<T>, chan: Seq<char>) -> int {
    choose|i: int| 0 <= i < v.len() && v[i].0 == chan
}

/// No two channels share a name.
pub open spec fn view_unique<T>(v: ChannelsView<T>) -> bool {
    forall|i: int, j: int| 0 <= i < j < v.len() ==> v[i].0 != v[j].0
}

/// What subscribing does to the channels: nothing, or — for an unseen
/// name — one new channel at the default value.
pub open spec fn sub_view<T>(v: ChannelsView<T>, chan: Seq<char>, default: T) -> ChannelsView<T> {
    if view_has(v, chan) {
        v
    } else {
        v.push((chan, default))
    }
}

/// The channel a fresh subscription reads.
pub open spec fn sub_index<T>(v: ChannelsView<T>, chan: Seq<char>) -> int {
    if view_has(v, chan) {
        view_index(v, chan)
    } else {
        v.len() as int
    }
}

/// What a successful publish does to the channels: the named channel
/// now holds the value, everything else stands.
pub open spec fn publish_view<T>(v: ChannelsView<T>, chan: Seq<char>, value: T) -> ChannelsView<T> {
    v.update(view_index(v, chan), (chan, value))
}

/// `v2` still has every channel of `v1`, under the same index and
/// name.  Channels are never removed, so this holds across every bus
/// operation; read handles stay valid.
pub open spec fn view_extends<T>(v2: ChannelsView<T>, v1: ChannelsView<T>) -> bool {
    &&& v1.len() <= v2.len()
    &&& forall|i: int| 0 <= i < v1.len() ==> v2[i].0 == v1[i].0
}

struct Channel<T> {
    name: String,
    bus: Bus<T>,
}

/// The named broadcast channels of one synthesiser.
///
/// Channels are created lazily by [`BusSystem::sub`] and never
/// removed: the registry only grows, which is a known, slow resource
/// leak and also what keeps every issued [`Reader`] valid for good.
pub struct BusSystem<T> {
    channels: Vec<Channel<T>>,
    default_value: T,
}

impl<T: Copy> BusSystem<T> {
    /// The channels: name and current value, in creation order.
    pub closed spec fn channels_view(self) -> ChannelsView<T> {
        self.channels@.map_values(|c: Channel<T>| (c.name@, c.bus.current()))
    }

    /// The value a channel starts at.
    pub closed spec fn default_spec(self) -> T {
        self.default_value
    }

    /// Channel names are unique.
    pub open spec fn wf(self) -> bool {
        view_unique(self.channels_view())
    }

    pub open spec fn has_channel(self, chan: Seq<char>) -> bool {
        view_has(self.channels_view(), chan)
    }

    /// Find a channel by name.
    fn find_channel(&self, key: &String) -> (r: Option<usize>)
        requires
            self.wf(),
        ensures
            match r {
                Some(i) => self.has_channel(key@) && i as int == view_index(
                    self.channels_view(),
                    key@,
                ),
                None => !self.has_channel(key@),
            },
    {
        let mut i: usize = 0;
        while i < self.channels.len()
            invariant
                0 <= i <= self.channels@.len(),
                self.wf(),
                forall|j: int| 0 <= j < i ==> self.channels_view()[j].0 != key@,
            decreases self.channels@.len() - i,
        {
            if self.channels[i].name == *key {
                proof {
                    let v = self.channels_view();
                    assert(v[i as int].0 == key@);
                    let w = view_index(v, key@);
                    assert(0 <= w < v.len() && v[w].0 == key@);
                    assert(w == i as int);
                }
                return Some(i);
            }
            i = i + 1;
        }
        None
    }

    /// Subscribe to a channel, creating it at the default value if the
    /// name was never seen.  Never fails; the returned reader sees the
    /// channel's current (or default) value immediately.
    pub fn sub(&mut self, chan: &str) -> (r: Reader)
        requires
            old(self).wf(),
        ensures
            final(self).wf(),
            final(self).channels_view() == sub_view(
                old(self).channels_view(),
                chan@,
                old(self).default_spec(),
            ),
            final(self).default_spec() == old(self).default_spec(),
            r.chan_spec() == sub_index(old(self).channels_view(), chan@),
            0 <= r.chan_spec() < final(self).channels_view().len(),
            final(self).channels_view()[r.chan_spec()].0 == chan@,
    {
        let key: String = chan.to_owned();
        match self.find_channel(&key) {
            Some(i) => {
                let b = &mut self.channels[i].bus;
                let _handle = b.subscribe();
                proof {
                    assert(final(self).channels_view() =~= old(self).channels_view());
                }
                Reader::with_chan(i)
            },
            None => {
                let i = self.channels.len();
                let mut b = Bus::new(self.default_value);
                let _handle = b.subscribe();
                self.channels.push(Channel { name: key, bus: b });
                proof {
                    let v1 = old(self).channels_view();
                    let v2 = final(self).channels_view();
                    assert(v2 =~= v1.push((chan@, old(self).default_spec())));
                    assert forall|a: int, b2: int| 0 <= a < b2 < v2.len() implies v2[a].0
                        != v2[b2].0 by {
                        if b2 == v1.len() as int {
                            assert(v2[a].0 == v1[a].0);
                        }
                    }
                }
                Reader::with_chan(i)
            },
        }
    }

    /// Publish a value: fails exactly when the channel has never been
    /// subscribed to; on success the named channel holds the value and
    /// every other channel stands.
    pub fn publish(&mut self, chan: &str, value: T) -> (r: Result<(), BusError>)
        requires
            old(self).wf(),
        ensures
            final(self).wf(),
            final(self).default_spec() == old(self).default_spec(),
            r is Ok <==> old(self).has_channel(chan@),
            old(self).has_channel(chan@) ==> final(self).channels_view() == publish_view(
                old(self).channels_view(),
                chan@,
                value,
            ),
            !old(self).has_channel(chan@) ==> *final(self) == *old(self) && (match r {
                Err(BusError::NoSuchChannel(name)) => name@ == chan@,
                _ => false,
            }),
    {
        let key: String = chan.to_owned();
        match self.find_channel(&key) {
            Some(i) => {
                let b = &mut self.channels[i].bus;
                b.publish(value);
                proof {
                    assert(final(self).channels_view() =~= publish_view(
                        old(self).channels_view(),
                        chan@,
                        value,
                    ));
                    assert(view_unique(final(self).channels_view()));
                }
                Ok(())
            },
            None => Err(BusError::NoSuchChannel(key)),
        }
    }

    /// How many channels exist (they are never removed).
    pub fn channel_count(&self) -> (r: usize)
        ensures
            r == self.channels_view().len(),
    {
        self.channels.len()
    }
}

impl<T: crate::traits::Amplitude> BusSystem<T> {
    /// An empty bus system; lazily created channels will start at the
    /// scalar's zero.
    pub fn new() -> (r: BusSystem<T>)
        ensures
            r.wf(),
            r.channels_view() == Seq::<(Seq<char>, T)>::empty(),
            r.default_spec() == T::zero_spec(),
    {
        let r = BusSystem { channels: Vec::new(), default_value: T::zero() };
        proof {
            assert(r.channels_view() =~= Seq::<(Seq<char>, T)>::empty());
        }
        r
    }
}

impl Reader {
    /// The value this reader's channel currently holds.
    ///
    /// Must only be called with the bus system the reader was issued
    /// by: a reader never outlives its channel, since channels are
    /// never removed.
    pub fn value_in<T: Copy>(&self, sys: &BusSystem<T>) -> (r: T)
        requires
            0 <= self.chan_spec() < sys.channels_view().len(),
        ensures
            r == sys.channels_view()[self.chan_spec()].1,
    {
        let i = self.chan_index();
        sys.channels[i].bus.read_current()
    }
}

/// Subscribing keeps every existing channel in place.
pub proof fn lemma_sub_view_extends<T>(v: ChannelsView<T>, chan: Seq<char>, default: T)
    ensures
        view_extends(sub_view(v, chan, default), v),
{
}

/// Publishing keeps every channel in place (only one value changes).
pub proof fn lemma_publish_view_extends<T>(v: ChannelsView<T>, chan: Seq<char>, value: T)
    requires
        view_unique(v),
        view_has(v, chan),
    ensures
        view_extends(publish_view(v, chan, value), v),
        publish_view(v, chan, value)[view_index(v, chan)].1 == value,
        forall|i: int|
            0 <= i < v.len() && i != view_index(v, chan) ==> publish_view(v, chan, value)[i]
                == v[i],
{
    let w = view_index(v, chan);
    assert(0 <= w < v.len() && v[w].0 == chan);
}

/// A fresh subscription reads the channel's previous value, or the
/// default where the channel is new.
pub proof fn lemma_subscribe_value<T>(v: ChannelsView<T>, chan: Seq<char>, default: T)
    ensures
        sub_view(v, chan, default)[sub_index(v, chan)].1 == if view_has(v, chan) {
            v[view_index(v, chan)].1
        } else {
            default
        },
{
    if view_has(v, chan) {
        let w = view_index(v, chan);
        assert(0 <= w < v.len() && v[w].0 == chan);
    }
}

} // verus!
