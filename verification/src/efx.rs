pub mod pan;
pub mod volume;

use vstd::prelude::*;
use crate::params::Parametrized;
use crate::pbus::BusSystem;
use crate::pbus::ChannelsView;
use crate::traits::Amplitude;
use crate::traits::SampleValue;
use crate::traits::SoundSample;

verus! {

/// Effect capability: transforms one input frame into one output
/// frame per tick.
///
/// An effect that returns [`SoundSample::Done`] gates its whole mixer:
/// the mixer discards its contribution for the tick and reports `Done`
/// itself (see the mixer's sampling algorithm).
pub trait Efx<T: Amplitude>: Parametrized<T> {
    /// The frame the next `sample` call returns for this input, given
    /// the current channel values.
    spec fn next_sample(&self, smpl: SampleValue<T>, v: ChannelsView<T>) -> SoundSample<T>;

    /// The state the next `sample` call leaves behind.
    spec fn next_state(&self, smpl: SampleValue<T>, v: ChannelsView<T>) -> Self;

    /// One-shot setup at insertion time, given the frame time (the
    /// reciprocal of the sample rate).
    fn init(&mut self, frame_t: T);

    /// Transform one frame.  Runs on the real-time path: no blocking.
    fn sample(&mut self, smpl: SampleValue<T>, buses: &BusSystem<T>) -> (r: SoundSample<T>)
        requires
            old(self).connected(buses.channels_view()),
        ensures
            r == old(self).next_sample(smpl, buses.channels_view()),
            *final(self) == old(self).next_state(smpl, buses.channels_view()),
            final(self).connected(buses.channels_view()),
    ;
}

} // verus!
