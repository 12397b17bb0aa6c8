use moomoot::SoundSample;
use moomoot::traits::Amplitude;
use moomoot::traits::SampleValue;
use moomoot::traits::mono_value;
use moomoot::traits::stereo_value;

/// Audio amplitudes as double-precision floats.
#[derive(Debug, Clone, Copy, PartialEq)]
struct Amp(f64);

impl Amplitude for Amp {
    // the model functions double the executable ones: nothing here is
    // machine-checked, floating-point addition only approximates the
    // trait's laws
    fn add_spec(self, other: Self) -> Self {
        self.add(other)
    }

    fn mul_spec(self, other: Self) -> Self {
        self.mul(other)
    }

    fn sub_spec(self, other: Self) -> Self {
        self.sub(other)
    }

    fn zero_spec() -> Self {
        Amp(0.0)
    }

    fn one_spec() -> Self {
        Amp(1.0)
    }

    fn add(self, other: Self) -> Self {
        Amp(self.0 + other.0)
    }

    fn mul(self, other: Self) -> Self {
        Amp(self.0 * other.0)
    }

    fn sub(self, other: Self) -> Self {
        Amp(self.0 - other.0)
    }

    fn zero() -> Self {
        Amp(0.0)
    }

    fn one() -> Self {
        Amp(1.0)
    }

    fn add_commutes(_a: Self, _b: Self) {
    }

    fn add_associates(_a: Self, _b: Self, _c: Self) {
    }
}

#[test]
fn test_automix_samples1() {
    let mono = mono_value(Amp(0.5));
    let silence = SoundSample::Silence;

    assert_eq!(SoundSample::Sample(SampleValue::Mono(Amp(0.5))), mono.add(silence));
}

#[test]
fn test_automix_samples2() {
    let mono = mono_value(Amp(0.5));
    let stereo = stereo_value(Amp(0.2), Amp(0.3));
    let silence = SoundSample::Silence;

    assert_eq!(
        SoundSample::Sample(SampleValue::Stereo(Amp(0.7), Amp(0.8))),
        mono.add(stereo).add(silence)
    );
}

#[test]
fn test_automix_samples3() {
    let mut sample = mono_value(Amp(0.5));
    sample.add_assign(stereo_value(Amp(0.2), Amp(0.3)));
    sample.add_assign(SoundSample::Silence);

    assert_eq!(SoundSample::Sample(SampleValue::Stereo(Amp(0.7), Amp(0.8))), sample);
}

#[test]
fn done_is_the_identity() {
    let done: SoundSample<Amp> = SoundSample::Done;
    // from the left ...
    assert_eq!(done.add(mono_value(Amp(0.25))), mono_value(Amp(0.25)));
    assert_eq!(done.add(SoundSample::Silence), SoundSample::Silence);
    assert_eq!(done.add(SoundSample::Done), SoundSample::Done);
    // ... and from the right
    assert_eq!(mono_value(Amp(0.25)).add(done), mono_value(Amp(0.25)));
    assert_eq!(SoundSample::Silence.add(done), SoundSample::Silence);
}

#[test]
fn stereo_pairs_add_channel_wise() {
    let a = stereo_value(Amp(1.0), Amp(2.0));
    let b = stereo_value(Amp(0.5), Amp(0.25));
    assert_eq!(a.add(b), stereo_value(Amp(1.5), Amp(2.25)));
}

#[test]
fn sum_mixes_a_whole_collection() {
    let samples = vec![
        mono_value(Amp(1.0)),
        SoundSample::Silence,
        mono_value(Amp(2.0)),
        SoundSample::Done,
        mono_value(Amp(4.0)),
    ];
    assert_eq!(SoundSample::sum(samples), mono_value(Amp(7.0)));
    let empty: Vec<SoundSample<Amp>> = Vec::new();
    assert_eq!(SoundSample::sum(empty), SoundSample::Done);
}

#[test]
fn sum_is_order_independent() {
    let one_way = vec![mono_value(Amp(0.5)), stereo_value(Amp(0.25), Amp(0.125))];
    let other_way = vec![stereo_value(Amp(0.25), Amp(0.125)), mono_value(Amp(0.5))];
    assert_eq!(SoundSample::sum(one_way), SoundSample::sum(other_way));
    // silences of either kind do not disturb the order-independence
    let with_done = vec![SoundSample::<Amp>::Silence, SoundSample::Done];
    let with_done_rev = vec![SoundSample::<Amp>::Done, SoundSample::Silence];
    assert_eq!(SoundSample::sum(with_done), SoundSample::Silence);
    assert_eq!(SoundSample::sum(with_done_rev), SoundSample::Silence);
}

#[test]
fn integer_amplitudes_wrap() {
    // the crate's own scalar instance: wrapping machine integers
    let top: SoundSample<i64> = mono_value(i64::MAX);
    assert_eq!(top.add(mono_value(1)), mono_value(i64::MIN));
    assert_eq!(mono_value(2i64).add(mono_value(3)), mono_value(5));
}
