use vstd::prelude::*;
use crate::efx::Efx;
use crate::params::ParamValue;
use crate::params::Parametrized;
use crate::pbus::BusSystem;
use crate::pbus::ChannelsView;
use crate::pbus::view_extends;
use crate::traits::Amplitude;
use crate::traits::SampleValue;
use crate::traits::SoundSample;
use crate::traits::mono_value;
use crate::traits::stereo_value;

verus! {

/// The knobs of a [`Volume`] effect.
pub struct VolumeParams<T> {
    pub volume: ParamValue<T>,
}

impl<T: Amplitude> VolumeParams<T> {
    /// Set the gain.
    pub fn volume(self, v: ParamValue<T>) -> (r: Self)
        ensures
            r.volume == v,
    {
        VolumeParams { volume: v }
    }
}

impl<T: Amplitude> Default for VolumeParams<T> {
    /// The neutral gain.
    fn default() -> (r: Self)
        ensures
            r.volume == ParamValue::<T>::Default(T::one_spec()),
    {
        VolumeParams { volume: ParamValue::Default(T::one()) }
    }
}

/// Scales every channel of its input by the `volume` parameter.
pub struct Volume<T> {
    pub params: VolumeParams<T>,
}

impl<T: Amplitude> Volume<T> {
    pub fn new(params: VolumeParams<T>) -> (r: Volume<T>)
        ensures
            r.params.volume == params.volume,
    {
        Volume { params }
    }
}

impl<T: Amplitude> Parametrized<T> for Volume<T> {
    open spec fn params_wf(&self, v: ChannelsView<T>) -> bool {
        self.params.volume.wf_in(v)
    }

    open spec fn connected(&self, v: ChannelsView<T>) -> bool {
        self.params.volume.connected_in(v)
    }

    open spec fn connect_spec(&self, v: ChannelsView<T>, default: T) -> (Self, ChannelsView<T>) {
        let (p2, v2) = self.params.volume.connect_spec(v, default);
        (Volume { params: VolumeParams { volume: p2 } }, v2)
    }

    fn connect_parameters(&mut self, buses: &mut BusSystem<T>) {
        self.params.volume.connect(buses);
        proof {
            old(self).params.volume.lemma_connect_spec_props(
                old(buses).channels_view(),
                old(buses).default_spec(),
            );
        }
    }

    proof fn connected_monotone(&self, v1: ChannelsView<T>, v2: ChannelsView<T>) {
        self.params.volume.lemma_connected_monotone(v1, v2);
    }
}

impl<T: Amplitude> Efx<T> for Volume<T> {
    open spec fn next_sample(&self, smpl: SampleValue<T>, v: ChannelsView<T>) -> SoundSample<T> {
        let g = self.params.volume.value_spec(v);
        match smpl {
            SampleValue::Mono(x) => SoundSample::Sample(SampleValue::Mono(g.mul_spec(x))),
            SampleValue::Stereo(r, l) => SoundSample::Sample(
                SampleValue::Stereo(g.mul_spec(r), g.mul_spec(l)),
            ),
        }
    }

    open spec fn next_state(&self, smpl: SampleValue<T>, v: ChannelsView<T>) -> Self {
        *self
    }

    fn init(&mut self, frame_t: T) {
    }

    fn sample(&mut self, smpl: SampleValue<T>, buses: &BusSystem<T>) -> (r: SoundSample<T>) {
        let g = self.params.volume.value(buses);
        match smpl {
            SampleValue::Mono(x) => mono_value(g.mul(x)),
            SampleValue::Stereo(r, l) => stereo_value(g.mul(r), g.mul(l)),
        }
    }
}

} // verus!
