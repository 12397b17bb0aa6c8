use vstd::prelude::*;
use crate::calc::CalcParam;
use crate::pbus::BusSystem;
use crate::pbus::ChannelsView;
use crate::pbus::Reader;
use crate::pbus::sub_index;
use crate::pbus::sub_view;
use crate::pbus::view_extends;
use crate::traits::Amplitude;

verus! {

/// A parameter fed from a bus channel.
///
/// It starts out holding only the channel's name; connecting it once
/// against the bus system turns the name into a live [`Reader`].  Its
/// value must not be read before that: skipping the connection step is
/// a programming error, not a runtime condition.
pub enum BusParam {
    /// an internal bus id, not resolved yet
    NotConnected(String),
    /// a live read handle into the bus system
    Connected(Reader),
}

impl BusParam {
    pub open spec fn is_connected(self) -> bool {
        self is Connected
    }

    /// The channel index the connected reader points at.
    pub open spec fn chan_of(self) -> int {
        match self {
            BusParam::Connected(r) => r.chan_spec(),
            BusParam::NotConnected(_) => -1,
        }
    }

    /// No dangling reader: if connected at all, then into a channel
    /// `v` really has.  Holds for a fresh parameter and is kept for
    /// good, since channels are never removed.
    pub open spec fn wf_in<T: Copy>(self, v: ChannelsView<T>) -> bool {
        self.is_connected() ==> 0 <= self.chan_of() < v.len()
    }

    /// Connected, into a channel `v` really has.
    pub open spec fn connected_in<T: Copy>(self, v: ChannelsView<T>) -> bool {
        self.is_connected() && 0 <= self.chan_of() < v.len()
    }

    /// Connected, and to the channel of this name.
    pub open spec fn connected_to<T: Copy>(self, v: ChannelsView<T>, chan: Seq<char>) -> bool {
        self.connected_in(v) && v[self.chan_of()].0 == chan
    }

    /// What `value` returns: the current value of the connected
    /// channel.
    pub open spec fn value_spec<T: Copy>(self, v: ChannelsView<T>) -> T {
        v[self.chan_of()].1
    }

    /// The current value of the connected channel.
    pub fn value<T: Copy>(&self, sys: &BusSystem<T>) -> (r: T)
        requires
            self.connected_in(sys.channels_view()),
        ensures
            r == self.value_spec(sys.channels_view()),
    {
        match self {
            BusParam::Connected(rd) => rd.value_in(sys),
            BusParam::NotConnected(_) => vstd::pervasive::unreached(),
        }
    }

    /// What `connect_to_bus` does: an unresolved name subscribes (and
    /// the channel springs up if it must); anything else stands.
    pub open spec fn connect_spec<T: Copy>(self, v: ChannelsView<T>, default: T) -> (
        BusParam,
        ChannelsView<T>,
    ) {
        match self {
            BusParam::NotConnected(name) => (
                BusParam::Connected(Reader::spec_with_chan(sub_index(v, name@))),
                sub_view(v, name@, default),
            ),
            BusParam::Connected(_) => (self, v),
        }
    }

    /// Resolve the channel name into a live reader; connected
    /// parameters are left alone.
    pub fn connect_to_bus<T: Copy>(&mut self, buses: &mut BusSystem<T>)
        requires
            old(buses).wf(),
            old(self).wf_in(old(buses).channels_view()),
        ensures
            final(buses).wf(),
            final(buses).default_spec() == old(buses).default_spec(),
            (*final(self), final(buses).channels_view()) == old(self).connect_spec(
                old(buses).channels_view(),
                old(buses).default_spec(),
            ),
            final(self).connected_in(final(buses).channels_view()),
            match *old(self) {
                BusParam::NotConnected(name) => final(self).connected_to(
                    final(buses).channels_view(),
                    name@,
                ),
                BusParam::Connected(_) => true,
            },
    {
        let name_opt: Option<String> = match &*self {
            BusParam::NotConnected(name) => Some(name.clone()),
            BusParam::Connected(_) => None,
        };
        if let Some(name) = name_opt {
            let r = buses.sub(name.as_str());
            proof {
                let c = sub_index(old(buses).channels_view(), name@);
                Reader::lemma_chan_spec_range(r);
                Reader::lemma_with_chan_spec(c);
                Reader::lemma_reader_ext(r, Reader::spec_with_chan(c));
            }
            *self = BusParam::Connected(r);
        }
    }

    /// Connecting only grows the channel registry; a connected
    /// parameter is left untouched.
    pub proof fn lemma_connect_spec_props<T: Copy>(self, v: ChannelsView<T>, default: T)
        ensures
            view_extends(self.connect_spec(v, default).1, v),
            self.is_connected() ==> self.connect_spec(v, default) == (self, v),
    {
        match self {
            BusParam::NotConnected(name) => {
                crate::pbus::lemma_sub_view_extends(v, name@, default);
            },
            BusParam::Connected(_) => {},
        }
    }

    /// Connecting an unresolved name leaves the parameter reading the
    /// channel of that very name (the bound keeps the fresh reader's
    /// index a machine word; any registry backed by a vector obeys
    /// it).
    pub proof fn lemma_connect_spec_names<T: Copy>(self, v: ChannelsView<T>, default: T)
        requires
            v.len() <= usize::MAX,
        ensures
            match self {
                BusParam::NotConnected(name) => self.connect_spec(v, default).0.connected_to(
                    self.connect_spec(v, default).1,
                    name@,
                ),
                BusParam::Connected(_) => true,
            },
    {
        match self {
            BusParam::NotConnected(name) => {
                let w = sub_index(v, name@);
                if crate::pbus::view_has(v, name@) {
                    assert(0 <= crate::pbus::view_index(v, name@) < v.len() && v[crate::pbus::view_index(
                        v,
                        name@,
                    )].0 == name@);
                }
                Reader::lemma_with_chan_spec(w);
            },
            BusParam::Connected(_) => {},
        }
    }

    /// Once connected, a parameter stays connected as the registry
    /// grows.
    pub proof fn lemma_connected_monotone<T: Copy>(
        self,
        v1: ChannelsView<T>,
        v2: ChannelsView<T>,
    )
        requires
            self.connected_in(v1),
            view_extends(v2, v1),
        ensures
            self.connected_in(v2),
    {
    }
}

/// Parameters from the client side: how a unit's knob gets its value.
pub enum ParamValue<T> {
    /// a constant value
    Constant(T),
    /// an internal bus channel (for adjustable parameters)
    BusValue(BusParam),
    /// formula from constants and bus values
    Formula(CalcParam<T>),
    /// using the unit's default value
    Default(T),
}

impl<T: Amplitude> ParamValue<T> {
    /// No dangling reader anywhere in the parameter.
    pub open spec fn wf_in(self, v: ChannelsView<T>) -> bool {
        match self {
            ParamValue::Constant(_) => true,
            ParamValue::Default(_) => true,
            ParamValue::BusValue(b) => b.wf_in(v),
            ParamValue::Formula(c) => c.wf_in(v),
        }
    }

    /// Every live part of the parameter reads a channel `v` has.
    pub open spec fn connected_in(self, v: ChannelsView<T>) -> bool {
        match self {
            ParamValue::Constant(_) => true,
            ParamValue::Default(_) => true,
            ParamValue::BusValue(b) => b.connected_in(v),
            ParamValue::Formula(c) => c.connected_in(v),
        }
    }

    /// What `value` returns for each kind of parameter.
    pub open spec fn value_spec(self, v: ChannelsView<T>) -> T {
        match self {
            ParamValue::Constant(x) => x,
            ParamValue::Default(x) => x,
            ParamValue::BusValue(b) => b.value_spec(v),
            ParamValue::Formula(c) => c.calc_spec(v),
        }
    }

    /// What `connect` does for each kind of parameter.
    pub open spec fn connect_spec(self, v: ChannelsView<T>, default: T) -> (Self, ChannelsView<T>) {
        match self {
            ParamValue::BusValue(b) => {
                let (b2, v2) = b.connect_spec(v, default);
                (ParamValue::BusValue(b2), v2)
            },
            ParamValue::Formula(c) => {
                let (c2, v2) = c.connect_spec(v, default);
                (ParamValue::Formula(c2), v2)
            },
            _ => (self, v),
        }
    }

    /// A parameter that will use the unit's default value.
    pub fn default(v: T) -> (r: ParamValue<T>)
        ensures
            r == ParamValue::<T>::Default(v),
    {
        ParamValue::Default(v)
    }

    /// A constant parameter.
    pub fn constant(v: T) -> (r: ParamValue<T>)
        ensures
            r == ParamValue::<T>::Constant(v),
    {
        ParamValue::Constant(v)
    }

    /// A parameter fed from the named bus channel, to be connected.
    pub fn bus(chan: &str) -> (r: ParamValue<T>)
        ensures
            match r {
                ParamValue::BusValue(BusParam::NotConnected(name)) => name@ == chan@,
                _ => false,
            },
    {
        ParamValue::BusValue(BusParam::NotConnected(chan.to_owned()))
    }

    /// A parameter computed by a formula.
    pub fn formula(c: CalcParam<T>) -> (r: ParamValue<T>)
        ensures
            r == ParamValue::<T>::Formula(c),
    {
        ParamValue::Formula(c)
    }

    /// The parameter's current numeric value.  Calling this on an
    /// unconnected bus or formula parameter is a programming error and
    /// is ruled out by contract.
    pub fn value(&self, sys: &BusSystem<T>) -> (r: T)
        requires
            self.connected_in(sys.channels_view()),
        ensures
            r == self.value_spec(sys.channels_view()),
    {
        match self {
            ParamValue::Constant(x) => *x,
            ParamValue::Default(x) => *x,
            ParamValue::BusValue(b) => b.value(sys),
            ParamValue::Formula(c) => c.calc(sys),
        }
    }

    /// Resolve the parameter against the bus system.
    pub fn connect(&mut self, buses: &mut BusSystem<T>)
        requires
            old(buses).wf(),
            old(self).wf_in(old(buses).channels_view()),
        ensures
            final(buses).wf(),
            final(buses).default_spec() == old(buses).default_spec(),
            (*final(self), final(buses).channels_view()) == old(self).connect_spec(
                old(buses).channels_view(),
                old(buses).default_spec(),
            ),
            final(self).connected_in(final(buses).channels_view()),
    {
        match self {
            ParamValue::BusValue(b) => b.connect_to_bus(buses),
            ParamValue::Formula(c) => c.connect(buses),
            _ => {},
        }
    }

    /// Connecting only grows the channel registry; a connected
    /// parameter is left untouched.
    pub proof fn lemma_connect_spec_props(self, v: ChannelsView<T>, default: T)
        ensures
            view_extends(self.connect_spec(v, default).1, v),
            self.connected_in(v) ==> self.connect_spec(v, default) == (self, v),
    {
        match self {
            ParamValue::BusValue(b) => {
                b.lemma_connect_spec_props(v, default);
            },
            ParamValue::Formula(c) => {
                c.lemma_connect_spec_props(v, default);
            },
            _ => {},
        }
    }

    /// Once connected, a parameter stays connected as the registry
    /// grows.
    pub proof fn lemma_connected_monotone(self, v1: ChannelsView<T>, v2: ChannelsView<T>)
        requires
            self.connected_in(v1),
            view_extends(v2, v1),
        ensures
            self.connected_in(v2),
    {
        match self {
            ParamValue::BusValue(b) => {
                b.lemma_connected_monotone(v1, v2);
            },
            ParamValue::Formula(c) => {
                c.lemma_connected_monotone(v1, v2);
            },
            _ => {},
        }
    }
}

/// Every unit carrying live parameters implements this: how its
/// parameters connect to the bus system, and what being connected
/// means for it.  A unit without parameters connects trivially.
pub trait Parametrized<T: Amplitude>: Sized {
    /// No dangling reader in the unit: each of its parameters is
    /// either unresolved or reads a channel `v` has.  Holds for a
    /// freshly built unit.
    spec fn params_wf(&self, v: ChannelsView<T>) -> bool;

    /// Every live parameter of the unit holds a reader into `v`.
    spec fn connected(&self, v: ChannelsView<T>) -> bool;

    /// What `connect_parameters` does to the unit and to the channel
    /// registry.
    spec fn connect_spec(&self, v: ChannelsView<T>, default: T) -> (Self, ChannelsView<T>);

    /// Connect every bus or formula parameter of the unit to the bus
    /// system, creating channels as needed.
    fn connect_parameters(&mut self, buses: &mut BusSystem<T>)
        requires
            old(buses).wf(),
            old(self).params_wf(old(buses).channels_view()),
        ensures
            final(buses).wf(),
            final(buses).default_spec() == old(buses).default_spec(),
            (*final(self), final(buses).channels_view()) == old(self).connect_spec(
                old(buses).channels_view(),
                old(buses).default_spec(),
            ),
            final(self).connected(final(buses).channels_view()),
            view_extends(final(buses).channels_view(), old(buses).channels_view()),
    ;

    /// Once connected, a unit stays connected as the registry grows.
    proof fn connected_monotone(&self, v1: ChannelsView<T>, v2: ChannelsView<T>)
        requires
            self.connected(v1),
            view_extends(v2, v1),
        ensures
            self.connected(v2),
    ;
}

/// Publishing to the channel a parameter is connected to changes the
/// value that parameter reads, already on the very next read.
pub proof fn lemma_publish_then_value<T: Copy>(
    p: BusParam,
    v1: ChannelsView<T>,
    chan: Seq<char>,
    value: T,
)
    requires
        crate::pbus::view_unique(v1),
        crate::pbus::view_has(v1, chan),
        p.connected_to(v1, chan),
    ensures
        p.value_spec(crate::pbus::publish_view(v1, chan, value)) == value,
        p.connected_to(crate::pbus::publish_view(v1, chan, value), chan),
{
    let w = crate::pbus::view_index(v1, chan);
    assert(0 <= w < v1.len() && v1[w].0 == chan);
    assert(p.chan_of() == w);
}

} // verus!
