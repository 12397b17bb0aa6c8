use moomoot::SoundSample;
use moomoot::efx::Efx;
use moomoot::efx::pan::Pan;
use moomoot::efx::pan::PanParams;
use moomoot::efx::volume::Volume;
use moomoot::efx::volume::VolumeParams;
use moomoot::params::ParamValue;
use moomoot::params::Parametrized;
use moomoot::pbus::BusSystem;
use moomoot::pbus::ChannelsView;
use moomoot::synth::Synth;
use moomoot::traits::Amplitude;
use moomoot::traits::SampleValue;
use moomoot::traits::mono_value;
use moomoot::traits::stereo_value;
use moomoot::tree::TreeError;
use moomoot::tree::mixer::Mixer;
use moomoot::tree::mmtree::Command;
use moomoot::tree::mmtree::MMTree;

/// Audio amplitudes as double-precision floats.
#[derive(Debug, Clone, Copy, PartialEq)]
struct Amp(f64);

impl Amplitude for Amp {
    // the model functions double the executable ones: nothing here is
    // machine-checked, floating-point addition only approximates the
    // trait's laws
    fn add_spec(self, other: Self) -> Self {
        Amp(self.0 + other.0)
    }

    fn mul_spec(self, other: Self) -> Self {
        Amp(self.0 * other.0)
    }

    fn sub_spec(self, other: Self) -> Self {
        Amp(self.0 - other.0)
    }

    fn zero_spec() -> Self {
        Amp(0.0)
    }

    fn one_spec() -> Self {
        Amp(1.0)
    }

    fn add(self, other: Self) -> Self {
        Amp(self.0 + other.0)
    }

    fn mul(self, other: Self) -> Self {
        Amp(self.0 * other.0)
    }

    fn sub(self, other: Self) -> Self {
        Amp(self.0 - other.0)
    }

    fn zero() -> Self {
        Amp(0.0)
    }

    fn one() -> Self {
        Amp(1.0)
    }

    fn add_commutes(_a: Self, _b: Self) {
    }

    fn add_associates(_a: Self, _b: Self, _c: Self) {
    }
}

/// a synth that returns a constant.
#[derive(Clone)]
struct CstSynth {
    value: Amp,
}

impl CstSynth {
    fn new(v: f64) -> CstSynth {
        CstSynth { value: Amp(v) }
    }
}

impl Parametrized<Amp> for CstSynth {
    // the erased model half of the trait; never consulted at run time
    fn params_wf(&self, _v: ChannelsView<Amp>) -> bool {
        true
    }

    fn connected(&self, _v: ChannelsView<Amp>) -> bool {
        true
    }

    fn connect_spec(&self, v: ChannelsView<Amp>, _default: Amp) -> (Self, ChannelsView<Amp>) {
        (self.clone(), v)
    }

    fn connect_parameters(&mut self, _buses: &mut BusSystem<Amp>) {
    }

    fn connected_monotone(&self, _v1: ChannelsView<Amp>, _v2: ChannelsView<Amp>) {
    }
}

impl Synth<Amp> for CstSynth {
    fn next_sample(&self, _v: ChannelsView<Amp>) -> SoundSample<Amp> {
        SoundSample::Sample(SampleValue::Mono(self.value))
    }

    fn next_state(&self, _v: ChannelsView<Amp>) -> Self {
        self.clone()
    }

    fn init(&mut self, _frame_t: Amp) {
    }

    fn sample(&mut self, _buses: &BusSystem<Amp>) -> SoundSample<Amp> {
        SoundSample::Sample(SampleValue::Mono(self.value))
    }
}

/// an envelope that passes three frames through, then asks out.
#[derive(Clone)]
struct ShittyEnvelope {
    nb_samples: usize,
    tic: usize,
}

impl ShittyEnvelope {
    fn new() -> ShittyEnvelope {
        ShittyEnvelope { nb_samples: 3, tic: 0 }
    }
}

impl Parametrized<Amp> for ShittyEnvelope {
    fn params_wf(&self, _v: ChannelsView<Amp>) -> bool {
        true
    }

    fn connected(&self, _v: ChannelsView<Amp>) -> bool {
        true
    }

    fn connect_spec(&self, v: ChannelsView<Amp>, _default: Amp) -> (Self, ChannelsView<Amp>) {
        (self.clone(), v)
    }

    fn connect_parameters(&mut self, _buses: &mut BusSystem<Amp>) {
    }

    fn connected_monotone(&self, _v1: ChannelsView<Amp>, _v2: ChannelsView<Amp>) {
    }
}

/// The one effect type of these tests: either a library gain stage or
/// the envelope above.
enum TestEfx {
    Vol(Volume<Amp>),
    Env(ShittyEnvelope),
}

impl Parametrized<Amp> for TestEfx {
    fn params_wf(&self, v: ChannelsView<Amp>) -> bool {
        match self {
            TestEfx::Vol(e) => e.params_wf(v),
            TestEfx::Env(e) => e.params_wf(v),
        }
    }

    fn connected(&self, v: ChannelsView<Amp>) -> bool {
        match self {
            TestEfx::Vol(e) => e.connected(v),
            TestEfx::Env(e) => e.connected(v),
        }
    }

    fn connect_spec(&self, v: ChannelsView<Amp>, default: Amp) -> (Self, ChannelsView<Amp>) {
        match self {
            TestEfx::Vol(e) => {
                let (e2, v2) = e.connect_spec(v, default);
                (TestEfx::Vol(e2), v2)
            },
            TestEfx::Env(e) => {
                let (e2, v2) = e.connect_spec(v, default);
                (TestEfx::Env(e2), v2)
            },
        }
    }

    fn connect_parameters(&mut self, buses: &mut BusSystem<Amp>) {
        match self {
            TestEfx::Vol(e) => e.connect_parameters(buses),
            TestEfx::Env(e) => e.connect_parameters(buses),
        }
    }

    fn connected_monotone(&self, _v1: ChannelsView<Amp>, _v2: ChannelsView<Amp>) {
    }
}

impl Efx<Amp> for TestEfx {
    fn next_sample(&self, smpl: SampleValue<Amp>, v: ChannelsView<Amp>) -> SoundSample<Amp> {
        match self {
            TestEfx::Vol(e) => e.next_sample(smpl, v),
            TestEfx::Env(e) => e.next_sample(smpl, v),
        }
    }

    fn next_state(&self, smpl: SampleValue<Amp>, v: ChannelsView<Amp>) -> Self {
        match self {
            TestEfx::Vol(e) => TestEfx::Vol(e.next_state(smpl, v)),
            TestEfx::Env(e) => TestEfx::Env(e.next_state(smpl, v)),
        }
    }

    fn init(&mut self, _frame_t: Amp) {
    }

    fn sample(&mut self, smpl: SampleValue<Amp>, buses: &BusSystem<Amp>) -> SoundSample<Amp> {
        match self {
            TestEfx::Vol(e) => e.sample(smpl, buses),
            TestEfx::Env(e) => e.sample(smpl, buses),
        }
    }
}

impl Efx<Amp> for ShittyEnvelope {
    fn next_sample(&self, smpl: SampleValue<Amp>, _v: ChannelsView<Amp>) -> SoundSample<Amp> {
        if self.tic < self.nb_samples {
            SoundSample::Sample(smpl)
        } else {
            SoundSample::Done
        }
    }

    fn next_state(&self, _smpl: SampleValue<Amp>, _v: ChannelsView<Amp>) -> Self {
        let mut e = self.clone();
        if e.tic < e.nb_samples {
            e.tic += 1;
        }
        e
    }

    fn init(&mut self, _frame_t: Amp) {
    }

    fn sample(&mut self, smpl: SampleValue<Amp>, _buses: &BusSystem<Amp>) -> SoundSample<Amp> {
        if self.tic < self.nb_samples {
            self.tic += 1;
            SoundSample::Sample(smpl)
        } else {
            SoundSample::Done
        }
    }
}

#[test]
fn create_tree() {
    let mut t: MMTree<Amp, CstSynth, TestEfx> = MMTree::new();

    // always them root mixer
    assert_eq!(t.mixer_count(), 1);
    // structure.
    t.add_mixer("root", "mixer1").unwrap();
    t.add_mixer("root", "mixer2").unwrap();
    t.add_mixer("mixer1", "mixer11").unwrap();

    assert_eq!(t.mixer_count(), 1 + 3, " there are 4 mixers");
}

#[test]
fn mixer_sample() {
    let buses: BusSystem<Amp> = BusSystem::new();
    let mut mixer: Mixer<CstSynth, TestEfx> = Mixer::new("test");

    mixer.add_synth(CstSynth::new(1.0));
    mixer.add_synth(CstSynth::new(3.0));

    assert_eq!(mixer.sample(&buses), mono_value(Amp(4.)));
}

#[test]
fn mixer_efx() {
    let buses: BusSystem<Amp> = BusSystem::new();
    let mut mixer: Mixer<CstSynth, TestEfx> = Mixer::new("test");
    mixer.add_synth(CstSynth::new(1.0));
    let v = TestEfx::Vol(Volume::new(VolumeParams::default().volume(ParamValue::constant(Amp(
        0.6,
    )))));
    mixer.add_efx(v);

    assert_eq!(mixer.sample(&buses), mono_value(Amp(0.6)));
}

#[test]
fn mixer_cascade() {
    let mut t: MMTree<Amp, CstSynth, TestEfx> = MMTree::new();

    // always them root mixer
    assert_eq!(t.mixer_count(), 1);
    // structure.
    t.add_mixer("root", "mixer1").unwrap();
    t.add_mixer("root", "mixer2").unwrap();

    t.add_synth("mixer1", CstSynth::new(0.1)).unwrap();
    t.add_synth("mixer2", CstSynth::new(0.3)).unwrap();
    assert_eq!(t.sample(), mono_value(Amp(0.4)));

    t.add_efx(
        "mixer2",
        TestEfx::Vol(Volume::new(VolumeParams::default().volume(ParamValue::constant(Amp(0.5))))),
    )
    .unwrap(); // 0.5
    assert_eq!(t.sample(), mono_value(Amp(0.25)));
}

#[test]
fn transient_mixers() {
    // transient mixers are mixers that get removed from the tree
    // when silenced .. (think the note of an instrument)

    let mut tree: MMTree<Amp, CstSynth, TestEfx> = MMTree::new();

    let transient_mixer_id = tree.add_transient_mixer("root").unwrap();

    tree.add_synth(&transient_mixer_id, CstSynth::new(0.42)).unwrap();

    tree.add_efx(&transient_mixer_id, TestEfx::Env(ShittyEnvelope::new())).unwrap();

    tree.add_mixer("root", "not_transient").unwrap();

    assert_eq!(tree.mixer_count(), 3);

    for _ in 0..3 {
        assert_eq!(tree.sample(), mono_value(Amp(0.42)));
    }
    assert_eq!(tree.sample(), SoundSample::Silence);
    assert_eq!(tree.mixer_count(), 2);
}

/// a synth whose level is a live parameter.
struct CstSynthWithP {
    value: ParamValue<Amp>,
}

impl CstSynthWithP {
    fn new(value: ParamValue<Amp>) -> CstSynthWithP {
        CstSynthWithP { value }
    }
}

impl Parametrized<Amp> for CstSynthWithP {
    fn params_wf(&self, _v: ChannelsView<Amp>) -> bool {
        true
    }

    fn connected(&self, _v: ChannelsView<Amp>) -> bool {
        true
    }

    fn connect_spec(&self, v: ChannelsView<Amp>, _default: Amp) -> (Self, ChannelsView<Amp>) {
        (CstSynthWithP { value: ParamValue::default(Amp(1.0)) }, v)
    }

    fn connect_parameters(&mut self, buses: &mut BusSystem<Amp>) {
        self.value.connect(buses);
    }

    fn connected_monotone(&self, _v1: ChannelsView<Amp>, _v2: ChannelsView<Amp>) {
    }
}

impl Synth<Amp> for CstSynthWithP {
    // the erased model half of the trait; never consulted at run time
    fn next_sample(&self, _v: ChannelsView<Amp>) -> SoundSample<Amp> {
        SoundSample::Silence
    }

    fn next_state(&self, _v: ChannelsView<Amp>) -> Self {
        CstSynthWithP { value: ParamValue::default(Amp(1.0)) }
    }

    fn init(&mut self, _frame_t: Amp) {
    }

    fn sample(&mut self, buses: &BusSystem<Amp>) -> SoundSample<Amp> {
        mono_value(self.value.value(buses))
    }
}

#[test]
fn synth_with_params() {
    let mut tree: MMTree<Amp, CstSynthWithP, TestEfx> = MMTree::new();
    tree.add_synth("root", CstSynthWithP::new(ParamValue::default(Amp(1.)))).unwrap();

    assert_eq!(tree.sample(), mono_value(Amp(1.)));

    tree.add_synth("root", CstSynthWithP::new(ParamValue::constant(Amp(0.44)))).unwrap();

    assert_eq!(tree.sample(), mono_value(Amp(1.44)));

    tree.add_synth("root", CstSynthWithP::new(ParamValue::bus("chombier"))).unwrap();

    tree.set_bus_value("chombier", Amp(1.0)).unwrap();
    assert_eq!(tree.sample(), mono_value(Amp(2.44)));
    tree.set_bus_value("chombier", Amp(0.33)).unwrap();
    assert_eq!(tree.sample(), mono_value(Amp(1.77)));
}

#[test]
fn unknown_parent_is_reported() {
    let mut t: MMTree<Amp, CstSynth, TestEfx> = MMTree::new();
    assert_eq!(t.add_mixer("nowhere", "kid"), Err(TreeError::NoSuchMixer));
    assert_eq!(t.add_synth("nowhere", CstSynth::new(1.0)), Err(TreeError::NoSuchMixer));
    assert_eq!(t.add_efx("nowhere", TestEfx::Env(ShittyEnvelope::new())), Err(TreeError::NoSuchMixer));
    assert!(t.add_transient_mixer("nowhere").is_err());
    assert_eq!(t.mixer_count(), 1);
}

#[test]
fn transient_ids_are_fresh_names() {
    let mut t: MMTree<Amp, CstSynth, TestEfx> = MMTree::new();
    let id = t.add_transient_mixer("root").unwrap();
    assert_eq!(id.len(), 32);
    assert_eq!(t.mixer_count(), 2);
    // the returned id addresses the new mixer
    t.add_synth(&id, CstSynth::new(0.5)).unwrap();
    assert_eq!(t.sample(), mono_value(Amp(0.5)));
}

#[test]
fn commands_apply_in_order() {
    let mut t: MMTree<Amp, CstSynthWithP, TestEfx> = MMTree::new();
    let cmds: Vec<Command<Amp, CstSynthWithP, TestEfx>> = vec![
        Command::AddMixer("root".to_string(), "voice".to_string()),
        Command::AddSynth("voice".to_string(), CstSynthWithP::new(ParamValue::bus("level"))),
        Command::SetBusValue("level".to_string(), Amp(0.125)),
    ];
    for c in cmds {
        t.command(c).unwrap();
    }
    assert_eq!(t.sample(), mono_value(Amp(0.125)));
    assert_eq!(
        t.command(Command::SetBusValue("ghostly".to_string(), Amp(1.0))),
        Err(TreeError::NoSuchChannel)
    );
    assert_eq!(
        t.command(Command::AddMixer("ghostly".to_string(), "kid".to_string())),
        Err(TreeError::NoSuchMixer)
    );
}

#[test]
fn pan_splits_between_channels() {
    let buses: BusSystem<Amp> = BusSystem::new();
    let mut pan = Pan::new(PanParams::new(ParamValue::constant(Amp(0.25))));
    // 0.25 to the right, the rest to the left
    assert_eq!(
        pan.sample(SampleValue::Mono(Amp(1.0)), &buses),
        stereo_value(Amp(0.25), Amp(0.75))
    );
    // stereo input is rescaled per channel
    assert_eq!(
        pan.sample(SampleValue::Stereo(Amp(1.0), Amp(1.0)), &buses),
        stereo_value(Amp(0.25), Amp(0.75))
    );
}

#[test]
fn volume_scales_channel_wise() {
    let buses: BusSystem<Amp> = BusSystem::new();
    let mut vol = Volume::new(VolumeParams::default().volume(ParamValue::constant(Amp(0.5))));
    assert_eq!(
        vol.sample(SampleValue::Stereo(Amp(1.0), Amp(3.0)), &buses),
        stereo_value(Amp(0.5), Amp(1.5))
    );
    // the default gain is neutral
    let mut unit = Volume::new(VolumeParams::default());
    assert_eq!(
        unit.sample(SampleValue::Mono(Amp(0.75)), &buses),
        mono_value(Amp(0.75))
    );
}

#[test]
fn find_mixer_walks_depth_first() {
    let mut root: Mixer<CstSynth, TestEfx> = Mixer::new("root");
    let mut kid: Mixer<CstSynth, TestEfx> = Mixer::new("kid");
    kid.add_sub_mixer(Mixer::new("grandkid"));
    root.add_sub_mixer(kid);
    root.add_sub_mixer(Mixer::new_transient("voice"));

    assert!(root.find_mixer("root").is_some());
    assert_eq!(root.find_mixer("grandkid").unwrap().id, "grandkid");
    assert_eq!(root.find_mixer("voice").unwrap().is_transient, true);
    assert!(root.find_mixer("nobody").is_none());
    assert_eq!(root.mixer_count(), 4);
}
