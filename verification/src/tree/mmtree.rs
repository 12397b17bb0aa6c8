use vstd::prelude::*;
use crate::efx::Efx;
use crate::params::Parametrized;
use crate::pbus::BusSystem;
use crate::pbus::BusError;
use crate::pbus::ChannelsView;
use crate::pbus::publish_view;
use crate::pbus::view_extends;
use crate::pbus::view_has;
use crate::pbus::view_unique;
use crate::synth::Synth;
use crate::traits::Amplitude;
use crate::traits::SoundSample;
use crate::tree::TreeError;
use crate::tree::mixer::Mixer;
use crate::tree::mixer::MixerView;
use crate::tree::mixer::TreeEdit;
use crate::tree::mixer::TreeEditView;
use crate::tree::mixer::edit_at;
use crate::tree::mixer::lemma_edit_connected;
use crate::tree::mixer::lemma_edit_shape;

verus! {

/// An empty mixer, as contracts describe a freshly inserted node.
pub open spec fn empty_mixer_view<S, E>(id: Seq<char>, transient: bool) -> MixerView<S, E> {
    MixerView {
        is_transient: transient,
        synths: Seq::<S>::empty(),
        sub_mixers: Seq::<MixerView<S, E>>::empty(),
        effects: Seq::<E>::empty(),
        id: id,
    }
}

/// A tree-mutation request, carried from the control thread to the
/// audio thread and applied there through [`MMTree::command`], in
/// arrival order, before any sampling.
pub enum Command<T, S, E> {
    /// add a persistent mixer under a parent: parent id, new id
    AddMixer(String, String),
    /// add an effect to a mixer's chain
    AddEfx(String, E),
    /// add a synth to a mixer (ownership moves into the tree)
    AddSynth(String, S),
    /// publish a value on a bus channel
    SetBusValue(String, T),
}

/// The synthesis tree and its bus system: the whole audio-side state
/// of the engine.
///
/// The tree exclusively owns every mixer, synth and effect; every
/// connected parameter inside it reads a channel of this tree's own
/// bus system, and stays valid because channels are never removed.
pub struct MMTree<T, S, E> {
    root_mixer: Mixer<S, E>,
    buses: BusSystem<T>,
}

impl<T: Amplitude, S: Synth<T>, E: Efx<T>> MMTree<T, S, E> {
    /// The synthesis tree, from its root.
    pub closed spec fn root_view(self) -> MixerView<S, E> {
        self.root_mixer@
    }

    /// The bus channels: name and current value, in creation order.
    pub closed spec fn buses_view(self) -> ChannelsView<T> {
        self.buses.channels_view()
    }

    /// The value a fresh channel starts at.
    pub closed spec fn default_spec(self) -> T {
        self.buses.default_spec()
    }

    /// The tree's standing invariant: unique channel names, every
    /// unit connected into this very bus system, and a persistent
    /// root called "root".
    pub open spec fn wf(self) -> bool {
        &&& view_unique(self.buses_view())
        &&& self.root_view().connected_all(self.buses_view())
        &&& self.root_view().id == "root"@
        &&& !self.root_view().is_transient
    }

    /// A fresh tree: one empty, persistent root mixer and no
    /// channels.
    pub fn new() -> (r: MMTree<T, S, E>)
        ensures
            r.wf(),
            r.root_view() == empty_mixer_view::<S, E>("root"@, false),
            r.buses_view() == Seq::<(Seq<char>, T)>::empty(),
            r.default_spec() == T::zero_spec(),
    {
        let r = MMTree { root_mixer: Mixer::new("root"), buses: BusSystem::new() };
        proof {
            assert(r.root_view().synths =~= Seq::<S>::empty());
        }
        r
    }

    /// Insert a new empty, persistent mixer under the named parent.
    pub fn add_mixer(&mut self, parent: &str, mixer_id: &str) -> (r: Result<(), TreeError>)
        requires
            old(self).wf(),
        ensures
            final(self).wf(),
            final(self).buses_view() == old(self).buses_view(),
            final(self).default_spec() == old(self).default_spec(),
            r is Ok <==> old(self).root_view().has_mixer(parent@),
            old(self).root_view().has_mixer(parent@) ==> final(self).root_view() == edit_at(
                old(self).root_view(),
                parent@,
                TreeEditView::AddMixer(empty_mixer_view::<S, E>(mixer_id@, false)),
            ),
            !old(self).root_view().has_mixer(parent@) ==> final(self).root_view() == old(
                self,
            ).root_view() && r == Err::<(), TreeError>(TreeError::NoSuchMixer),
    {
        let kid: Mixer<S, E> = Mixer::new(mixer_id);
        let res = self.root_mixer.insert_at(parent, TreeEdit::AddMixer(kid));
        proof {
            if old(self).root_view().has_mixer(parent@) {
                lemma_edit_shape(
                    old(self).root_view(),
                    parent@,
                    TreeEditView::AddMixer(empty_mixer_view::<S, E>(mixer_id@, false)),
                );
                lemma_edit_connected(
                    old(self).root_view(),
                    parent@,
                    TreeEditView::AddMixer(empty_mixer_view::<S, E>(mixer_id@, false)),
                    old(self).buses_view(),
                );
            }
        }
        match res {
            Ok(()) => Ok(()),
            Err(_) => Err(TreeError::NoSuchMixer),
        }
    }

    /// Insert a transient mixer under the named parent; the tree
    /// itself coins a collision-resistant id and hands it back.
    pub fn add_transient_mixer(&mut self, parent: &str) -> (r: Result<String, TreeError>)
        requires
            old(self).wf(),
        ensures
            final(self).wf(),
            final(self).buses_view() == old(self).buses_view(),
            final(self).default_spec() == old(self).default_spec(),
            r is Ok <==> old(self).root_view().has_mixer(parent@),
            match r {
                Ok(id) => id@.len() == 32 && final(self).root_view() == edit_at(
                    old(self).root_view(),
                    parent@,
                    TreeEditView::AddMixer(empty_mixer_view::<S, E>(id@, true)),
                ),
                Err(e) => final(self).root_view() == old(self).root_view() && e
                    == TreeError::NoSuchMixer,
            },
    {
        let mixer_id = new_voice_id();
        let kid: Mixer<S, E> = Mixer::new_transient(mixer_id.as_str());
        let res = self.root_mixer.insert_at(parent, TreeEdit::AddMixer(kid));
        proof {
            if old(self).root_view().has_mixer(parent@) {
                lemma_edit_shape(
                    old(self).root_view(),
                    parent@,
                    TreeEditView::AddMixer(empty_mixer_view::<S, E>(mixer_id@, true)),
                );
                lemma_edit_connected(
                    old(self).root_view(),
                    parent@,
                    TreeEditView::AddMixer(empty_mixer_view::<S, E>(mixer_id@, true)),
                    old(self).buses_view(),
                );
            }
        }
        match res {
            Ok(()) => Ok(mixer_id),
            Err(_) => Err(TreeError::NoSuchMixer),
        }
    }

    /// Connect a synth's parameters against this tree's buses, then
    /// hand it to the named mixer.  The connection happens first
    /// either way: channels it creates stay even if the mixer is not
    /// found and the synth is discarded.
    pub fn add_synth(&mut self, mixer_id: &str, synth: S) -> (r: Result<(), TreeError>)
        requires
            old(self).wf(),
            synth.params_wf(old(self).buses_view()),
        ensures
            final(self).wf(),
            final(self).buses_view() == synth.connect_spec(
                old(self).buses_view(),
                old(self).default_spec(),
            ).1,
            final(self).default_spec() == old(self).default_spec(),
            r is Ok <==> old(self).root_view().has_mixer(mixer_id@),
            old(self).root_view().has_mixer(mixer_id@) ==> final(self).root_view() == edit_at(
                old(self).root_view(),
                mixer_id@,
                TreeEditView::AddSynth(
                    synth.connect_spec(old(self).buses_view(), old(self).default_spec()).0,
                ),
            ),
            !old(self).root_view().has_mixer(mixer_id@) ==> final(self).root_view() == old(
                self,
            ).root_view() && r == Err::<(), TreeError>(TreeError::NoSuchMixer),
    {
        let mut synth = synth;
        synth.connect_parameters(&mut self.buses);
        proof {
            old(self).root_view().lemma_connected_monotone(
                old(self).buses_view(),
                self.buses.channels_view(),
            );
        }
        let ghost s2 = synth;
        let res = self.root_mixer.insert_at(mixer_id, TreeEdit::AddSynth(synth));
        proof {
            if old(self).root_view().has_mixer(mixer_id@) {
                lemma_edit_shape(old(self).root_view(), mixer_id@, TreeEditView::AddSynth(s2));
                lemma_edit_connected(
                    old(self).root_view(),
                    mixer_id@,
                    TreeEditView::AddSynth(s2),
                    final(self).buses.channels_view(),
                );
            }
        }
        match res {
            Ok(()) => Ok(()),
            Err(_) => Err(TreeError::NoSuchMixer),
        }
    }

    /// Connect an effect's parameters against this tree's buses, then
    /// append it to the named mixer's chain.
    pub fn add_efx(&mut self, mixer_id: &str, fx: E) -> (r: Result<(), TreeError>)
        requires
            old(self).wf(),
            fx.params_wf(old(self).buses_view()),
        ensures
            final(self).wf(),
            final(self).buses_view() == fx.connect_spec(
                old(self).buses_view(),
                old(self).default_spec(),
            ).1,
            final(self).default_spec() == old(self).default_spec(),
            r is Ok <==> old(self).root_view().has_mixer(mixer_id@),
            old(self).root_view().has_mixer(mixer_id@) ==> final(self).root_view() == edit_at(
                old(self).root_view(),
                mixer_id@,
                TreeEditView::AddEfx(
                    fx.connect_spec(old(self).buses_view(), old(self).default_spec()).0,
                ),
            ),
            !old(self).root_view().has_mixer(mixer_id@) ==> final(self).root_view() == old(
                self,
            ).root_view() && r == Err::<(), TreeError>(TreeError::NoSuchMixer),
    {
        let mut fx = fx;
        fx.connect_parameters(&mut self.buses);
        proof {
            old(self).root_view().lemma_connected_monotone(
                old(self).buses_view(),
                self.buses.channels_view(),
            );
        }
        let ghost e2 = fx;
        let res = self.root_mixer.insert_at(mixer_id, TreeEdit::AddEfx(fx));
        proof {
            if old(self).root_view().has_mixer(mixer_id@) {
                lemma_edit_shape(old(self).root_view(), mixer_id@, TreeEditView::AddEfx(e2));
                lemma_edit_connected(
                    old(self).root_view(),
                    mixer_id@,
                    TreeEditView::AddEfx(e2),
                    final(self).buses.channels_view(),
                );
            }
        }
        match res {
            Ok(()) => Ok(()),
            Err(_) => Err(TreeError::NoSuchMixer),
        }
    }

    /// Publish a value on a bus channel: fails exactly when the
    /// channel has never been subscribed to, and touches nothing
    /// else.
    pub fn set_bus_value(&mut self, bus: &str, value: T) -> (r: Result<(), BusError>)
        requires
            old(self).wf(),
        ensures
            final(self).wf(),
            final(self).root_view() == old(self).root_view(),
            final(self).default_spec() == old(self).default_spec(),
            r is Ok <==> view_has(old(self).buses_view(), bus@),
            view_has(old(self).buses_view(), bus@) ==> final(self).buses_view() == publish_view(
                old(self).buses_view(),
                bus@,
                value,
            ),
            !view_has(old(self).buses_view(), bus@) ==> final(self).buses_view() == old(
                self,
            ).buses_view() && (match r {
                Err(BusError::NoSuchChannel(name)) => name@ == bus@,
                _ => false,
            }),
    {
        let res = self.buses.publish(bus, value);
        proof {
            if view_has(old(self).buses_view(), bus@) {
                crate::pbus::lemma_publish_view_extends(old(self).buses_view(), bus@, value);
                old(self).root_view().lemma_connected_monotone(
                    old(self).buses_view(),
                    self.buses.channels_view(),
                );
            }
        }
        res
    }

    /// How many mixers the tree holds.
    pub fn mixer_count(&self) -> (r: usize)
        requires
            self.root_view().count_spec() <= usize::MAX,
        ensures
            r == self.root_view().count_spec(),
    {
        self.root_mixer.mixer_count()
    }

    /// One tick: sample the whole tree once.  The root is never
    /// pruned; with nothing to play it reports silence.
    pub fn sample(&mut self) -> (r: SoundSample<T>)
        requires
            old(self).wf(),
        ensures
            final(self).wf(),
            final(self).buses_view() == old(self).buses_view(),
            final(self).default_spec() == old(self).default_spec(),
            r == old(self).root_view().step_spec(old(self).buses_view()).0,
            final(self).root_view() == old(self).root_view().step_spec(old(self).buses_view()).1,
    {
        let r = self.root_mixer.sample(&self.buses);
        proof {
            crate::tree::mixer::lemma_step_shape(old(self).root_view(), old(self).buses_view());
        }
        r
    }

    /// Apply one queued command, in arrival order, before sampling.
    /// A failure means the control and audio sides disagree about the
    /// tree; the caller decides whether that is fatal.
    pub fn command(&mut self, cmd: Command<T, S, E>) -> (r: Result<(), TreeError>)
        requires
            old(self).wf(),
            match cmd {
                Command::AddSynth(_, s) => s.params_wf(old(self).buses_view()),
                Command::AddEfx(_, e) => e.params_wf(old(self).buses_view()),
                _ => true,
            },
        ensures
            final(self).wf(),
            final(self).default_spec() == old(self).default_spec(),
            match cmd {
                Command::AddMixer(p, kid) => {
                    &&& final(self).buses_view() == old(self).buses_view()
                    &&& (r is Ok <==> old(self).root_view().has_mixer(p@))
                    &&& (old(self).root_view().has_mixer(p@) ==> final(self).root_view()
                        == edit_at(
                        old(self).root_view(),
                        p@,
                        TreeEditView::AddMixer(empty_mixer_view::<S, E>(kid@, false)),
                    ))
                    &&& (!old(self).root_view().has_mixer(p@) ==> final(self).root_view() == old(
                        self,
                    ).root_view() && r == Err::<(), TreeError>(TreeError::NoSuchMixer))
                },
                Command::AddSynth(mid, s) => {
                    &&& final(self).buses_view() == s.connect_spec(
                        old(self).buses_view(),
                        old(self).default_spec(),
                    ).1
                    &&& (r is Ok <==> old(self).root_view().has_mixer(mid@))
                    &&& (old(self).root_view().has_mixer(mid@) ==> final(self).root_view()
                        == edit_at(
                        old(self).root_view(),
                        mid@,
                        TreeEditView::AddSynth(
                            s.connect_spec(old(self).buses_view(), old(self).default_spec()).0,
                        ),
                    ))
                    &&& (!old(self).root_view().has_mixer(mid@) ==> final(self).root_view() == old(
                        self,
                    ).root_view() && r == Err::<(), TreeError>(TreeError::NoSuchMixer))
                },
                Command::AddEfx(mid, e) => {
                    &&& final(self).buses_view() == e.connect_spec(
                        old(self).buses_view(),
                        old(self).default_spec(),
                    ).1
                    &&& (r is Ok <==> old(self).root_view().has_mixer(mid@))
                    &&& (old(self).root_view().has_mixer(mid@) ==> final(self).root_view()
                        == edit_at(
                        old(self).root_view(),
                        mid@,
                        TreeEditView::AddEfx(
                            e.connect_spec(old(self).buses_view(), old(self).default_spec()).0,
                        ),
                    ))
                    &&& (!old(self).root_view().has_mixer(mid@) ==> final(self).root_view() == old(
                        self,
                    ).root_view() && r == Err::<(), TreeError>(TreeError::NoSuchMixer))
                },
                Command::SetBusValue(chan, value) => {
                    &&& final(self).root_view() == old(self).root_view()
                    &&& (r is Ok <==> view_has(old(self).buses_view(), chan@))
                    &&& (view_has(old(self).buses_view(), chan@) ==> final(self).buses_view()
                        == publish_view(old(self).buses_view(), chan@, value))
                    &&& (!view_has(old(self).buses_view(), chan@) ==> final(self).buses_view()
                        == old(self).buses_view() && r == Err::<(), TreeError>(
                        TreeError::NoSuchChannel,
                    ))
                },
            },
    {
        match cmd {
            Command::AddSynth(p, synth) => self.add_synth(p.as_str(), synth),
            Command::AddEfx(p, fx) => self.add_efx(p.as_str(), fx),
            Command::AddMixer(p, mixer_id) => self.add_mixer(p.as_str(), mixer_id.as_str()),
            Command::SetBusValue(bus, value) => match self.set_bus_value(bus.as_str(), value) {
                Ok(()) => Ok(()),
                Err(_) => Err(TreeError::NoSuchChannel),
            },
        }
    }
}

/// Relies on `uuid::Uuid::new_v4` and its `simple` formatting: a
/// fresh random identifier of 32 hexadecimal digits.
#[verifier::external_body]
fn new_voice_id() -> (r: String)
    ensures
        r@.len() == 32,
{
    uuid::Uuid::new_v4().simple().to_string()
}

} // verus!
