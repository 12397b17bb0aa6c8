use vstd::prelude::*;
use crate::params::Parametrized;
use crate::pbus::BusSystem;
use crate::pbus::ChannelsView;
use crate::traits::Amplitude;
use crate::traits::SoundSample;

verus! {

/// Unit synthesiser capability.
///
/// A synth produces exactly one frame per call to `sample`, reading
/// its live parameters from the bus system; what it returns and how
/// its internal state advances are pinned down by the two spec
/// functions, so a mixer's output is a function of its units' states
/// and the current bus values.  Returning [`SoundSample::Done`] asks
/// the owning mixer to drop the synth.
///
/// Implementations outside this crate (an audio program's oscillators)
/// are not checked against their contracts; the tree algebra holds for
/// whatever they return.
pub trait Synth<T: Amplitude>: Parametrized<T> {
    /// The frame the next `sample` call returns, given the current
    /// channel values.
    spec fn next_sample(&self, v: ChannelsView<T>) -> SoundSample<T>;

    /// The state the next `sample` call leaves behind.
    spec fn next_state(&self, v: ChannelsView<T>) -> Self;

    /// One-shot setup at insertion time, given the frame time (the
    /// reciprocal of the sample rate).
    fn init(&mut self, frame_t: T);

    /// Generate one frame.  Runs on the real-time path: no blocking.
    fn sample(&mut self, buses: &BusSystem<T>) -> (r: SoundSample<T>)
        requires
            old(self).connected(buses.channels_view()),
        ensures
            r == old(self).next_sample(buses.channels_view()),
            *final(self) == old(self).next_state(buses.channels_view()),
            final(self).connected(buses.channels_view()),
    ;
}

} // verus!
