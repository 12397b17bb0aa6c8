use vstd::prelude::*;
use crate::params::BusParam;
use crate::pbus::BusSystem;
use crate::pbus::ChannelsView;
use crate::pbus::view_extends;
use crate::traits::Amplitude;

verus! {

/// An arithmetic operator of a formula parameter.
#[derive(Debug, Clone, Copy, PartialEq, Eq)]
pub enum CalcBinOp {
    Add,
    Sub,
    Mult,
}

/// Calculator-like expressions for a parameter: simple equations over
/// constants and bus channels.
///
/// The textual form is read outside the engine; the engine only
/// evaluates the finished expression, against the current bus values.
pub enum CalcParam<T> {
    /// a literal constant
    Cst(T),
    /// a bus channel, by name until connected
    BusValue(BusParam),
    /// an operator node over two sub-expressions
    Node(CalcBinOp, Box<CalcParam<T>>, Box<CalcParam<T>>),
}

impl<T: Amplitude> CalcParam<T> {
    /// No dangling reader in the expression: every bus reference is
    /// either unresolved or reads a channel `v` has.
    pub open spec fn wf_in(self, v: ChannelsView<T>) -> bool
        decreases self,
    {
        match self {
            CalcParam::Cst(_) => true,
            CalcParam::BusValue(b) => b.wf_in(v),
            CalcParam::Node(_, left, right) => left.wf_in(v) && right.wf_in(v),
        }
    }

    /// Every bus reference in the expression holds a live reader into
    /// channels of `v`.
    pub open spec fn connected_in(self, v: ChannelsView<T>) -> bool
        decreases self,
    {
        match self {
            CalcParam::Cst(_) => true,
            CalcParam::BusValue(b) => b.connected_in(v),
            CalcParam::Node(_, left, right) => left.connected_in(v) && right.connected_in(v),
        }
    }

    /// What `calc` returns: the expression evaluated over the current
    /// channel values.
    pub open spec fn calc_spec(self, v: ChannelsView<T>) -> T
        decreases self,
    {
        match self {
            CalcParam::Cst(x) => x,
            CalcParam::BusValue(b) => b.value_spec(v),
            CalcParam::Node(op, left, right) => {
                let l = left.calc_spec(v);
                let r = right.calc_spec(v);
                match op {
                    CalcBinOp::Add => l.add_spec(r),
                    CalcBinOp::Sub => l.sub_spec(r),
                    CalcBinOp::Mult => l.mul_spec(r),
                }
            },
        }
    }

    /// What `connect` does: resolve every named bus reference, left to
    /// right, creating channels as subscription does.
    pub open spec fn connect_spec(self, v: ChannelsView<T>, default: T) -> (Self, ChannelsView<T>)
        decreases self,
    {
        match self {
            CalcParam::Cst(x) => (self, v),
            CalcParam::BusValue(b) => {
                let (b2, v2) = b.connect_spec(v, default);
                (CalcParam::BusValue(b2), v2)
            },
            CalcParam::Node(op, left, right) => {
                let (l2, v1) = left.connect_spec(v, default);
                let (r2, v2) = right.connect_spec(v1, default);
                (CalcParam::Node(op, Box::new(l2), Box::new(r2)), v2)
            },
        }
    }

    /// Evaluate the expression against the current bus values.
    pub fn calc(&self, sys: &BusSystem<T>) -> (r: T)
        requires
            self.connected_in(sys.channels_view()),
        ensures
            r == self.calc_spec(sys.channels_view()),
        decreases *self,
    {
        match self {
            CalcParam::Cst(x) => *x,
            CalcParam::BusValue(b) => b.value(sys),
            CalcParam::Node(op, left, right) => {
                let l = left.calc(sys);
                let r = right.calc(sys);
                match op {
                    CalcBinOp::Add => l.add(r),
                    CalcBinOp::Sub => l.sub(r),
                    CalcBinOp::Mult => l.mul(r),
                }
            },
        }
    }

    /// Resolve every named bus reference against the bus system.
    pub fn connect(&mut self, buses: &mut BusSystem<T>)
        requires
            old(buses).wf(),
            old(self).wf_in(old(buses).channels_view()),
        ensures
            final(buses).wf(),
            final(buses).default_spec() == old(buses).default_spec(),
            (*final(self), final(buses).channels_view()) == old(self).connect_spec(
                old(buses).channels_view(),
                old(buses).default_spec(),
            ),
            final(self).connected_in(final(buses).channels_view()),
        decreases *old(self),
    {
        match self {
            CalcParam::Cst(_) => {},
            CalcParam::BusValue(b) => {
                b.connect_to_bus(buses);
            },
            CalcParam::Node(_, left, right) => {
                let ghost v0 = old(buses).channels_view();
                let ghost d = old(buses).default_spec();
                let ghost oldl = **left;
                let ghost oldr = **right;
                left.connect(buses);
                let ghost v1 = buses.channels_view();
                let ghost l2 = **left;
                proof {
                    oldl.lemma_connect_spec_props(v0, d);
                    oldr.lemma_wf_monotone(v0, v1);
                }
                right.connect(buses);
                proof {
                    let v2 = buses.channels_view();
                    oldr.lemma_connect_spec_props(v1, d);
                    l2.lemma_connected_monotone(v1, v2);
                }
            },
        }
    }

    /// Connecting an expression only grows the channel registry, and
    /// afterwards the expression is connected in it.
    pub proof fn lemma_connect_spec_props(self, v: ChannelsView<T>, default: T)
        ensures
            view_extends(self.connect_spec(v, default).1, v),
            self.connected_in(v) ==> self.connect_spec(v, default) == (self, v),
        decreases self,
    {
        match self {
            CalcParam::Cst(_) => {},
            CalcParam::BusValue(b) => {
                b.lemma_connect_spec_props(v, default);
            },
            CalcParam::Node(_, left, right) => {
                let (l2, v1) = left.connect_spec(v, default);
                left.lemma_connect_spec_props(v, default);
                right.lemma_connect_spec_props(v1, default);
                if self.connected_in(v) {
                    right.lemma_connect_spec_props(v, default);
                }
            },
        }
    }

    /// Once connected, an expression stays connected as the registry
    /// grows, and it is connected right after `connect`.
    pub proof fn lemma_connected_monotone(self, v1: ChannelsView<T>, v2: ChannelsView<T>)
        requires
            self.connected_in(v1),
            view_extends(v2, v1),
        ensures
            self.connected_in(v2),
        decreases self,
    {
        match self {
            CalcParam::Cst(_) => {},
            CalcParam::BusValue(b) => {},
            CalcParam::Node(_, left, right) => {
                left.lemma_connected_monotone(v1, v2);
                right.lemma_connected_monotone(v1, v2);
            },
        }
    }

    /// An expression without dangling readers keeps that as the
    /// registry grows.
    pub proof fn lemma_wf_monotone(self, v1: ChannelsView<T>, v2: ChannelsView<T>)
        requires
            self.wf_in(v1),
            view_extends(v2, v1),
        ensures
            self.wf_in(v2),
        decreases self,
    {
        match self {
            CalcParam::Cst(_) => {},
            CalcParam::BusValue(b) => {},
            CalcParam::Node(_, left, right) => {
                left.lemma_wf_monotone(v1, v2);
                right.lemma_wf_monotone(v1, v2);
            },
        }
    }
}

} // verus!
