use vstd::prelude::*;
use crate::efx::Efx;
use crate::params::ParamValue;
use crate::params::Parametrized;
use crate::pbus::BusSystem;
use crate::pbus::ChannelsView;
use crate::traits::Amplitude;
use crate::traits::SampleValue;
use crate::traits::SoundSample;
use crate::traits::stereo_value;

verus! {

/// The knobs of a [`Pan`] effect: the right-channel share, between
/// zero (all left) and one (all right).
pub struct PanParams<T> {
    pub pan: ParamValue<T>,
}

impl<T: Amplitude> PanParams<T> {
    /// Start from a given right-channel share.
    pub fn new(pan: ParamValue<T>) -> (r: Self)
        ensures
            r.pan == pan,
    {
        PanParams { pan }
    }

    /// Set the right-channel share.
    pub fn pan(self, v: ParamValue<T>) -> (r: Self)
        ensures
            r.pan == v,
    {
        PanParams { pan: v }
    }
}

/// Splits its input between the two channels: the right channel is
/// scaled by `pan`, the left one by one minus `pan`.
pub struct Pan<T> {
    pub params: PanParams<T>,
}

impl<T: Amplitude> Pan<T> {
    pub fn new(params: PanParams<T>) -> (r: Pan<T>)
        ensures
            r.params.pan == params.pan,
    {
        Pan { params }
    }
}

impl<T: Amplitude> Parametrized<T> for Pan<T> {
    open spec fn params_wf(&self, v: ChannelsView<T>) -> bool {
        self.params.pan.wf_in(v)
    }

    open spec fn connected(&self, v: ChannelsView<T>) -> bool {
        self.params.pan.connected_in(v)
    }

    open spec fn connect_spec(&self, v: ChannelsView<T>, default: T) -> (Self, ChannelsView<T>) {
        let (p2, v2) = self.params.pan.connect_spec(v, default);
        (Pan { params: PanParams { pan: p2 } }, v2)
    }

    fn connect_parameters(&mut self, buses: &mut BusSystem<T>) {
        self.params.pan.connect(buses);
        proof {
            old(self).params.pan.lemma_connect_spec_props(
                old(buses).channels_view(),
                old(buses).default_spec(),
            );
        }
    }

    proof fn connected_monotone(&self, v1: ChannelsView<T>, v2: ChannelsView<T>) {
        self.params.pan.lemma_connected_monotone(v1, v2);
    }
}

impl<T: Amplitude> Efx<T> for Pan<T> {
    open spec fn next_sample(&self, smpl: SampleValue<T>, v: ChannelsView<T>) -> SoundSample<T> {
        let right_v = self.params.pan.value_spec(v);
        let left_v = T::one_spec().sub_spec(right_v);
        match smpl {
            SampleValue::Mono(x) => SoundSample::Sample(
                SampleValue::Stereo(x.mul_spec(right_v), x.mul_spec(left_v)),
            ),
            SampleValue::Stereo(r, l) => SoundSample::Sample(
                SampleValue::Stereo(right_v.mul_spec(r), left_v.mul_spec(l)),
            ),
        }
    }

    open spec fn next_state(&self, smpl: SampleValue<T>, v: ChannelsView<T>) -> Self {
        *self
    }

    fn init(&mut self, frame_t: T) {
    }

    fn sample(&mut self, smpl: SampleValue<T>, buses: &BusSystem<T>) -> (r: SoundSample<T>) {
        let right_v = self.params.pan.value(buses);
        let left_v = T::one().sub(right_v);
        match smpl {
            SampleValue::Mono(x) => stereo_value(x.mul(right_v), x.mul(left_v)),
            SampleValue::Stereo(r, l) => stereo_value(right_v.mul(r), left_v.mul(l)),
        }
    }
}

} // verus!
