use vstd::prelude::*;
use crate::efx::Efx;
use crate::pbus::BusSystem;
use crate::pbus::ChannelsView;
use crate::pbus::view_extends;
use crate::synth::Synth;
use crate::traits::Amplitude;
use crate::traits::SampleValue;
use crate::traits::SoundSample;

verus! {

/// An owning node of the synthesis tree: child synths, child mixers
/// and an effect chain, sampled once per tick.
pub struct Mixer<S, E> {
    pub is_transient: bool,
    pub synths: Vec<S>,
    pub sub_mixers: Vec<Mixer<S, E>>,
    pub effects: Vec<E>,
    pub id: String,
}

/// A mixer as the contracts see it: the same tree with mathematical
/// collections in place of vectors and strings.
#[verifier::ext_equal]
pub struct MixerView<S, E> {
    pub is_transient: bool,
    pub synths: Seq<S>,
    pub sub_mixers: Seq<MixerView<S, E>>,
    pub effects: Seq<E>,
    pub id: Seq<char>,
}

/// The views of a list of mixers.
pub open spec fn mixers_view<S, E>(ms: Seq<Mixer<S, E>>) -> Seq<MixerView<S, E>>
    decreases ms,
{
    if ms.len() == 0 {
        Seq::empty()
    } else {
        mixers_view(ms.drop_last()).push(ms.last().view())
    }
}

impl<S, E> View for Mixer<S, E> {
    type V = MixerView<S, E>;

    open spec fn view(&self) -> MixerView<S, E>
        decreases self,
    {
        MixerView {
            is_transient: self.is_transient,
            synths: self.synths@,
            sub_mixers: mixers_view(self.sub_mixers@),
            effects: self.effects@,
            id: self.id@,
        }
    }
}

/// `mixers_view` is pointwise `view`.
pub proof fn lemma_mixers_view_index<S, E>(ms: Seq<Mixer<S, E>>)
    ensures
        mixers_view(ms).len() == ms.len(),
        forall|i: int| 0 <= i < ms.len() ==> mixers_view(ms)[i] == ms[i]@,
    decreases ms,
{
    if ms.len() > 0 {
        lemma_mixers_view_index(ms.drop_last());
        assert(mixers_view(ms) == mixers_view(ms.drop_last()).push(ms.last()@));
        assert forall|i: int| 0 <= i < ms.len() implies mixers_view(ms)[i] == ms[i]@ by {
            if i < ms.len() - 1 {
                assert(ms.drop_last()[i] == ms[i]);
            }
        }
    }
}

impl<S, E> MixerView<S, E> {
    /// How many mixers the subtree holds, this node included.
    pub open spec fn count_spec(self) -> nat
        decreases self,
    {
        1 + count_subs(self.sub_mixers)
    }

    /// Whether some node of the subtree carries this id (first match
    /// in depth-first order is the one mutations touch).
    pub open spec fn has_mixer(self, id: Seq<char>) -> bool
        decreases self,
    {
        self.id == id || subs_have(self.sub_mixers, id)
    }
}

/// The mixers of a whole list of subtrees.
pub open spec fn count_subs<S, E>(ms: Seq<MixerView<S, E>>) -> nat
    decreases ms,
{
    if ms.len() == 0 {
        0
    } else {
        count_subs(ms.drop_last()) + ms.last().count_spec()
    }
}

/// Whether some subtree of the list carries this id.
pub open spec fn subs_have<S, E>(ms: Seq<MixerView<S, E>>, id: Seq<char>) -> bool
    decreases ms,
{
    ms.len() > 0 && (ms[0].has_mixer(id) || subs_have(ms.drop_first(), id))
}

/// Every synth of the list is connected into `v`.
pub open spec fn synths_connected<T: Amplitude, S: Synth<T>>(ss: Seq<S>, v: ChannelsView<T>) -> bool {
    forall|i: int| 0 <= i < ss.len() ==> ss[i].connected(v)
}

/// Every effect of the list is connected into `v`.
pub open spec fn efx_connected<T: Amplitude, E: Efx<T>>(es: Seq<E>, v: ChannelsView<T>) -> bool {
    forall|i: int| 0 <= i < es.len() ==> es[i].connected(v)
}

/// Every mixer of the list is connected into `v`.
pub open spec fn subs_connected<T: Amplitude, S: Synth<T>, E: Efx<T>>(
    ms: Seq<MixerView<S, E>>,
    v: ChannelsView<T>,
) -> bool
    decreases ms,
{
    ms.len() == 0 || (ms[0].connected_all(v) && subs_connected(ms.drop_first(), v))
}

impl<S, E> MixerView<S, E> {
    /// Every unit in the subtree reads only channels `v` has: the
    /// invariant the tree keeps against its own bus system.
    pub open spec fn connected_all<T: Amplitude>(self, v: ChannelsView<T>) -> bool where
        S: Synth<T>,
        E: Efx<T>,

        decreases self,
    {
        &&& synths_connected(self.synths, v)
        &&& efx_connected(self.effects, v)
        &&& subs_connected(self.sub_mixers, v)
    }
}

/// A list of connected mixers is connected member by member.
pub proof fn lemma_subs_connected_index<T: Amplitude, S: Synth<T>, E: Efx<T>>(
    ms: Seq<MixerView<S, E>>,
    v: ChannelsView<T>,
)
    ensures
        subs_connected(ms, v) <==> (forall|i: int| 0 <= i < ms.len() ==> ms[i].connected_all(v)),
    decreases ms,
{
    if ms.len() > 0 {
        lemma_subs_connected_index(ms.drop_first(), v);
        assert forall|i: int| 0 <= i < ms.len() && subs_connected(ms, v) implies ms[i].connected_all(
            v,
        ) by {
            if i > 0 {
                assert(ms.drop_first()[i - 1] == ms[i]);
            }
        }
        if forall|i: int| 0 <= i < ms.len() ==> ms[i].connected_all(v) {
            assert forall|i: int| 0 <= i < ms.drop_first().len() implies ms.drop_first()[i].connected_all(
                v,
            ) by {
                assert(ms.drop_first()[i] == ms[i + 1]);
            }
        }
    }
}

impl<S, E> MixerView<S, E> {
    /// A connected subtree stays connected as the channel registry
    /// grows: channels are never removed.
    pub proof fn lemma_connected_monotone<T: Amplitude>(
        self,
        v1: ChannelsView<T>,
        v2: ChannelsView<T>,
    ) where S: Synth<T>, E: Efx<T>
        requires
            self.connected_all(v1),
            view_extends(v2, v1),
        ensures
            self.connected_all(v2),
        decreases self,
    {
        assert forall|i: int| 0 <= i < self.synths.len() implies self.synths[i].connected(v2) by {
            self.synths[i].connected_monotone(v1, v2);
        }
        assert forall|i: int| 0 <= i < self.effects.len() implies self.effects[i].connected(
            v2,
        ) by {
            self.effects[i].connected_monotone(v1, v2);
        }
        lemma_subs_connected_monotone(self.sub_mixers, v1, v2);
    }
}

/// `lemma_connected_monotone` over a list of subtrees.
pub proof fn lemma_subs_connected_monotone<T: Amplitude, S: Synth<T>, E: Efx<T>>(
    ms: Seq<MixerView<S, E>>,
    v1: ChannelsView<T>,
    v2: ChannelsView<T>,
)
    requires
        subs_connected(ms, v1),
        view_extends(v2, v1),
    ensures
        subs_connected(ms, v2),
    decreases ms,
{
    if ms.len() > 0 {
        ms[0].lemma_connected_monotone(v1, v2);
        lemma_subs_connected_monotone(ms.drop_first(), v1, v2);
    }
}

/// Where in a list the first subtree carrying the id sits.
pub proof fn lemma_subs_have_index<S, E>(ms: Seq<MixerView<S, E>>, id: Seq<char>)
    ensures
        subs_have(ms, id) <==> exists|i: int| 0 <= i < ms.len() && ms[i].has_mixer(id),
    decreases ms,
{
    if ms.len() > 0 {
        lemma_subs_have_index(ms.drop_first(), id);
        if ms[0].has_mixer(id) {
            assert(ms[0].has_mixer(id) && 0 < ms.len());
        } else if subs_have(ms.drop_first(), id) {
            let j = choose|j: int|
                0 <= j < ms.drop_first().len() && ms.drop_first()[j].has_mixer(id);
            assert(ms[j + 1].has_mixer(id));
        } else {
            if exists|i: int| 0 <= i < ms.len() && ms[i].has_mixer(id) {
                let i = choose|i: int| 0 <= i < ms.len() && ms[i].has_mixer(id);
                assert(i > 0 && ms.drop_first()[i - 1].has_mixer(id));
            }
        }
    }
}

/// The mixing fold over a tick's contributions, in arrival order:
/// finished (`Done`) contributions fall out, the rest combine with the
/// sample algebra, and an empty round is silence.
pub open spec fn mix_outs<T: Amplitude>(outs: Seq<SoundSample<T>>) -> SoundSample<T>
    decreases outs,
{
    if outs.len() == 0 {
        SoundSample::Silence
    } else {
        let rest = mix_outs(outs.drop_last());
        if outs.last() is Done {
            rest
        } else {
            rest.add_spec(outs.last())
        }
    }
}

/// The frames a row of synths contributes this tick.
pub open spec fn synth_outs<T: Amplitude, S: Synth<T>>(
    ss: Seq<S>,
    v: ChannelsView<T>,
) -> Seq<SoundSample<T>> {
    ss.map_values(|s: S| s.next_sample(v))
}

/// The row of synths after the tick: the finished ones dropped, the
/// rest advanced.
pub open spec fn synths_after<T: Amplitude, S: Synth<T>>(ss: Seq<S>, v: ChannelsView<T>) -> Seq<
    S,
> {
    ss.filter(|s: S| !(s.next_sample(v) is Done)).map_values(|s: S| s.next_state(v))
}

/// A frame passed through the effect chain, front to back: each
/// effect consumes the running value and produces the next; an effect
/// that yields no frame gates the chain, and the effects behind it are
/// not even asked.
pub open spec fn efx_chain<T: Amplitude, E: Efx<T>>(
    es: Seq<E>,
    val: SampleValue<T>,
    v: ChannelsView<T>,
) -> (SoundSample<T>, Seq<E>)
    decreases es,
{
    if es.len() == 0 {
        (SoundSample::Sample(val), Seq::empty())
    } else {
        let e0 = es[0];
        match e0.next_sample(val, v) {
            SoundSample::Sample(v2) => {
                let (r, rest) = efx_chain(es.drop_first(), v2, v);
                (r, seq![e0.next_state(val, v)] + rest)
            },
            _ => (SoundSample::Done, seq![e0.next_state(val, v)] + es.drop_first()),
        }
    }
}

impl<S, E> MixerView<S, E> {
    /// One tick of this mixer: the frame it reports and the node it
    /// leaves behind.  Synths are sampled and the finished ones
    /// dropped; sub-mixers likewise; the two partial mixes combine;
    /// a frame then runs the effect chain, while a mixer with nothing
    /// to play reports `Done` when transient (asking its parent to
    /// drop it) and `Silence` otherwise.
    pub open spec fn step_spec<T: Amplitude>(self, v: ChannelsView<T>) -> (
        SoundSample<T>,
        MixerView<S, E>,
    ) where S: Synth<T>, E: Efx<T>
        decreases self,
    {
        let s_out = mix_outs(synth_outs(self.synths, v));
        let (m_out, subs2) = subs_step(self.sub_mixers, v);
        let combined = s_out.add_spec(m_out);
        let synths2 = synths_after(self.synths, v);
        match combined {
            SoundSample::Sample(val) => {
                let (r, fx2) = efx_chain(self.effects, val, v);
                (
                    r,
                    MixerView {
                        is_transient: self.is_transient,
                        synths: synths2,
                        sub_mixers: subs2,
                        effects: fx2,
                        id: self.id,
                    },
                )
            },
            _ => (
                if self.is_transient {
                    SoundSample::Done
                } else {
                    SoundSample::Silence
                },
                MixerView { synths: synths2, sub_mixers: subs2, ..self },
            ),
        }
    }
}

/// One tick of a row of sub-mixers: their mixed frame and the row
/// after, the mixers that reported `Done` dropped.
pub open spec fn subs_step<T: Amplitude, S: Synth<T>, E: Efx<T>>(
    ms: Seq<MixerView<S, E>>,
    v: ChannelsView<T>,
) -> (SoundSample<T>, Seq<MixerView<S, E>>)
    decreases ms,
{
    if ms.len() == 0 {
        (SoundSample::Silence, Seq::empty())
    } else {
        let (out_l, m_l) = ms.last().step_spec(v);
        let (out_f, rest_f) = subs_step(ms.drop_last(), v);
        match out_l {
            SoundSample::Done => (out_f, rest_f),
            _ => (out_f.add_spec(out_l), rest_f.push(m_l)),
        }
    }
}

/// One synth more into the tick's fold.
pub proof fn lemma_synths_step<T: Amplitude, S: Synth<T>>(ss: Seq<S>, k: int, v: ChannelsView<T>)
    requires
        0 <= k < ss.len(),
    ensures
        synth_outs(ss.take(k + 1), v) == synth_outs(ss.take(k), v).push(ss[k].next_sample(v)),
        mix_outs(synth_outs(ss.take(k + 1), v)) == if ss[k].next_sample(v) is Done {
            mix_outs(synth_outs(ss.take(k), v))
        } else {
            mix_outs(synth_outs(ss.take(k), v)).add_spec(ss[k].next_sample(v))
        },
        synths_after(ss.take(k + 1), v) == if ss[k].next_sample(v) is Done {
            synths_after(ss.take(k), v)
        } else {
            synths_after(ss.take(k), v).push(ss[k].next_state(v))
        },
{
    reveal(Seq::filter);
    let pred = |s: S| !(s.next_sample(v) is Done);
    let advance = |s: S| s.next_state(v);
    assert(ss.take(k + 1).drop_last() =~= ss.take(k));
    assert(ss.take(k + 1).last() == ss[k]);
    assert(synth_outs(ss.take(k + 1), v) =~= synth_outs(ss.take(k), v).push(
        ss[k].next_sample(v),
    ));
    assert(synth_outs(ss.take(k + 1), v).drop_last() =~= synth_outs(ss.take(k), v));
    assert(synth_outs(ss.take(k + 1), v).last() == ss[k].next_sample(v));
    assert(ss.take(k + 1).filter(pred) == if pred(ss[k]) {
        ss.take(k).filter(pred).push(ss[k])
    } else {
        ss.take(k).filter(pred)
    });
    if pred(ss[k]) {
        assert(ss.take(k).filter(pred).push(ss[k]).map_values(advance) =~= ss.take(k).filter(
            pred,
        ).map_values(advance).push(ss[k].next_state(v)));
    }
}

/// One sub-mixer more into the tick's fold.
pub proof fn lemma_subs_step_take<T: Amplitude, S: Synth<T>, E: Efx<T>>(
    ms: Seq<MixerView<S, E>>,
    k: int,
    v: ChannelsView<T>,
)
    requires
        0 <= k < ms.len(),
    ensures
        subs_step(ms.take(k + 1), v) == {
            let (out_l, m_l) = ms[k].step_spec(v);
            let (out_f, rest_f) = subs_step(ms.take(k), v);
            match out_l {
                SoundSample::<T>::Done => (out_f, rest_f),
                _ => (out_f.add_spec(out_l), rest_f.push(m_l)),
            }
        },
{
    assert(ms.take(k + 1).drop_last() =~= ms.take(k));
    assert(ms.take(k + 1).last() == ms[k]);
}

/// Counting one more subtree.
pub proof fn lemma_count_subs_take_step<S, E>(ms: Seq<MixerView<S, E>>, i: int)
    requires
        0 <= i < ms.len(),
    ensures
        count_subs(ms.take(i + 1)) == count_subs(ms.take(i)) + ms[i].count_spec(),
{
    assert(ms.take(i + 1).drop_last() =~= ms.take(i));
    assert(ms.take(i + 1).last() == ms[i]);
}

/// A prefix never counts more than the whole list.
pub proof fn lemma_count_subs_prefix<S, E>(ms: Seq<MixerView<S, E>>, j: int)
    requires
        0 <= j <= ms.len(),
    ensures
        count_subs(ms.take(j)) <= count_subs(ms),
    decreases ms,
{
    if j == ms.len() {
        assert(ms.take(j) =~= ms);
    } else {
        assert(ms.take(j) =~= ms.drop_last().take(j));
        lemma_count_subs_prefix(ms.drop_last(), j);
    }
}

/// The node the first depth-first match of an id denotes.
pub open spec fn find_spec<S, E>(mv: MixerView<S, E>, id: Seq<char>) -> Option<MixerView<S, E>>
    decreases mv,
{
    if mv.id == id {
        Some(mv)
    } else {
        find_in_subs(mv.sub_mixers, id)
    }
}

/// `find_spec` over a list of subtrees.
pub open spec fn find_in_subs<S, E>(ms: Seq<MixerView<S, E>>, id: Seq<char>) -> Option<
    MixerView<S, E>,
>
    decreases ms,
{
    if ms.len() == 0 {
        None
    } else if ms[0].has_mixer(id) {
        find_spec(ms[0], id)
    } else {
        find_in_subs(ms.drop_first(), id)
    }
}

/// A search succeeds exactly on the ids the tree has.
pub proof fn lemma_find_spec_has<S, E>(mv: MixerView<S, E>, id: Seq<char>)
    ensures
        find_spec(mv, id) is Some <==> mv.has_mixer(id),
    decreases mv,
{
    if mv.id != id {
        lemma_find_in_subs_has(mv.sub_mixers, id);
    }
}

/// `lemma_find_spec_has` over a list of subtrees.
pub proof fn lemma_find_in_subs_has<S, E>(ms: Seq<MixerView<S, E>>, id: Seq<char>)
    ensures
        find_in_subs(ms, id) is Some <==> subs_have(ms, id),
    decreases ms,
{
    if ms.len() > 0 {
        if ms[0].has_mixer(id) {
            lemma_find_spec_has(ms[0], id);
        } else {
            lemma_find_in_subs_has(ms.drop_first(), id);
        }
    }
}

/// No member of a list counts more mixers than the whole list.
pub proof fn lemma_count_subs_member<S, E>(ms: Seq<MixerView<S, E>>, i: int)
    requires
        0 <= i < ms.len(),
    ensures
        ms[i].count_spec() <= count_subs(ms),
{
    lemma_count_subs_take_step(ms, i);
    lemma_count_subs_prefix(ms, i + 1);
}

/// One pending mutation of the tree, to apply at a named mixer.
pub enum TreeEdit<S, E> {
    /// append a synth to the mixer's own synths
    AddSynth(S),
    /// append an effect to the mixer's chain
    AddEfx(E),
    /// append a new sub-mixer
    AddMixer(Mixer<S, E>),
}

/// The view of a pending mutation.
pub enum TreeEditView<S, E> {
    AddSynth(S),
    AddEfx(E),
    AddMixer(MixerView<S, E>),
}

impl<S, E> View for TreeEdit<S, E> {
    type V = TreeEditView<S, E>;

    open spec fn view(&self) -> TreeEditView<S, E> {
        match self {
            TreeEdit::AddSynth(s) => TreeEditView::AddSynth(*s),
            TreeEdit::AddEfx(e) => TreeEditView::AddEfx(*e),
            TreeEdit::AddMixer(m) => TreeEditView::AddMixer(m@),
        }
    }
}

/// A mutation applied to one node.
pub open spec fn apply_edit<S, E>(mv: MixerView<S, E>, ed: TreeEditView<S, E>) -> MixerView<S, E> {
    match ed {
        TreeEditView::AddSynth(s) => MixerView { synths: mv.synths.push(s), ..mv },
        TreeEditView::AddEfx(e) => MixerView { effects: mv.effects.push(e), ..mv },
        TreeEditView::AddMixer(m) => MixerView { sub_mixers: mv.sub_mixers.push(m), ..mv },
    }
}

/// The tree after applying the mutation at the first node found (in
/// depth-first order) that carries the target id; without such a node
/// the tree stands.
pub open spec fn edit_at<S, E>(
    mv: MixerView<S, E>,
    target: Seq<char>,
    ed: TreeEditView<S, E>,
) -> MixerView<S, E>
    decreases mv,
{
    if mv.id == target {
        apply_edit(mv, ed)
    } else {
        MixerView { sub_mixers: edit_subs(mv.sub_mixers, target, ed), ..mv }
    }
}

/// The mutation applied inside the first subtree that has the target.
pub open spec fn edit_subs<S, E>(
    ms: Seq<MixerView<S, E>>,
    target: Seq<char>,
    ed: TreeEditView<S, E>,
) -> Seq<MixerView<S, E>>
    decreases ms,
{
    if ms.len() == 0 {
        ms
    } else if ms[0].has_mixer(target) {
        seq![edit_at(ms[0], target, ed)] + ms.drop_first()
    } else {
        seq![ms[0]] + edit_subs(ms.drop_first(), target, ed)
    }
}

/// Editing the first carrier, spelt out: the list with entry `i`
/// edited, when the carriers start at `i`.
pub proof fn lemma_edit_subs_at<S, E>(
    ms: Seq<MixerView<S, E>>,
    target: Seq<char>,
    ed: TreeEditView<S, E>,
    i: int,
)
    requires
        0 <= i < ms.len(),
        ms[i].has_mixer(target),
        forall|j: int| 0 <= j < i ==> !ms[j].has_mixer(target),
    ensures
        edit_subs(ms, target, ed) == ms.update(i, edit_at(ms[i], target, ed)),
    decreases i,
{
    if i == 0 {
        assert(seq![edit_at(ms[0], target, ed)] + ms.drop_first() =~= ms.update(
            0,
            edit_at(ms[0], target, ed),
        ));
    } else {
        assert(ms.drop_first()[i - 1] == ms[i]);
        assert forall|j: int| 0 <= j < i - 1 implies !ms.drop_first()[j].has_mixer(target) by {
            assert(ms.drop_first()[j] == ms[j + 1]);
        }
        lemma_edit_subs_at(ms.drop_first(), target, ed, i - 1);
        assert(seq![ms[0]] + ms.drop_first().update(i - 1, edit_at(ms[i], target, ed))
            =~= ms.update(i, edit_at(ms[i], target, ed)));
    }
}

/// One tick neither renames a mixer nor changes its persistence.
pub proof fn lemma_step_shape<T: Amplitude, S: Synth<T>, E: Efx<T>>(
    mv: MixerView<S, E>,
    v: ChannelsView<T>,
)
    ensures
        mv.step_spec(v).1.id == mv.id,
        mv.step_spec(v).1.is_transient == mv.is_transient,
{
}

/// The payload a pending mutation brings into the tree.
pub open spec fn edit_payload_connected<T: Amplitude, S: Synth<T>, E: Efx<T>>(
    ed: TreeEditView<S, E>,
    v: ChannelsView<T>,
) -> bool {
    match ed {
        TreeEditView::AddSynth(s) => s.connected(v),
        TreeEditView::AddEfx(e) => e.connected(v),
        TreeEditView::AddMixer(m) => m.connected_all(v),
    }
}

/// An edit neither renames a node nor changes its persistence.
pub proof fn lemma_edit_shape<S, E>(mv: MixerView<S, E>, target: Seq<char>, ed: TreeEditView<S, E>)
    ensures
        edit_at(mv, target, ed).id == mv.id,
        edit_at(mv, target, ed).is_transient == mv.is_transient,
{
}

/// An edit whose payload is connected keeps the whole tree connected.
pub proof fn lemma_edit_connected<T: Amplitude, S: Synth<T>, E: Efx<T>>(
    mv: MixerView<S, E>,
    target: Seq<char>,
    ed: TreeEditView<S, E>,
    v: ChannelsView<T>,
)
    requires
        mv.connected_all(v),
        edit_payload_connected(ed, v),
    ensures
        edit_at(mv, target, ed).connected_all(v),
    decreases mv,
{
    if mv.id == target {
        match ed {
            TreeEditView::AddSynth(s) => {
                assert forall|i: int| 0 <= i < mv.synths.push(s).len() implies mv.synths.push(
                    s,
                )[i].connected(v) by {
                    if i < mv.synths.len() {
                        assert(mv.synths.push(s)[i] == mv.synths[i]);
                    }
                }
            },
            TreeEditView::AddEfx(e) => {
                assert forall|i: int| 0 <= i < mv.effects.push(e).len() implies mv.effects.push(
                    e,
                )[i].connected(v) by {
                    if i < mv.effects.len() {
                        assert(mv.effects.push(e)[i] == mv.effects[i]);
                    }
                }
            },
            TreeEditView::AddMixer(m) => {
                lemma_subs_connected_index(mv.sub_mixers, v);
                lemma_subs_connected_index(mv.sub_mixers.push(m), v);
                assert forall|i: int| 0 <= i < mv.sub_mixers.push(m).len() implies mv.sub_mixers.push(
                    m,
                )[i].connected_all(v) by {
                    if i < mv.sub_mixers.len() {
                        assert(mv.sub_mixers.push(m)[i] == mv.sub_mixers[i]);
                    }
                }
            },
        }
    } else {
        lemma_edit_subs_connected(mv.sub_mixers, target, ed, v);
    }
}

/// `lemma_edit_connected` over a list of subtrees.
pub proof fn lemma_edit_subs_connected<T: Amplitude, S: Synth<T>, E: Efx<T>>(
    ms: Seq<MixerView<S, E>>,
    target: Seq<char>,
    ed: TreeEditView<S, E>,
    v: ChannelsView<T>,
)
    requires
        subs_connected(ms, v),
        edit_payload_connected(ed, v),
    ensures
        subs_connected(edit_subs(ms, target, ed), v),
    decreases ms,
{
    if ms.len() > 0 {
        if ms[0].has_mixer(target) {
            lemma_edit_connected(ms[0], target, ed, v);
            let out = seq![edit_at(ms[0], target, ed)] + ms.drop_first();
            assert(out.drop_first() =~= ms.drop_first());
            assert(out[0] == edit_at(ms[0], target, ed));
        } else {
            lemma_edit_subs_connected(ms.drop_first(), target, ed, v);
            let out = seq![ms[0]] + edit_subs(ms.drop_first(), target, ed);
            assert(out.drop_first() =~= edit_subs(ms.drop_first(), target, ed));
            assert(out[0] == ms[0]);
        }
    }
}

impl<S, E> Mixer<S, E> {
    /// An empty, persistent mixer.
    pub fn new(id: &str) -> (r: Mixer<S, E>)
        ensures
            r@ == (MixerView {
                is_transient: false,
                synths: Seq::<S>::empty(),
                sub_mixers: Seq::<MixerView<S, E>>::empty(),
                effects: Seq::<E>::empty(),
                id: id@,
            }),
    {
        let r = Mixer {
            is_transient: false,
            synths: Vec::new(),
            effects: Vec::new(),
            sub_mixers: Vec::new(),
            id: id.to_owned(),
        };
        r
    }

    /// An empty mixer that will remove itself once nothing below it
    /// has anything left to play.
    pub fn new_transient(id: &str) -> (r: Mixer<S, E>)
        ensures
            r@ == (MixerView {
                is_transient: true,
                synths: Seq::<S>::empty(),
                sub_mixers: Seq::<MixerView<S, E>>::empty(),
                effects: Seq::<E>::empty(),
                id: id@,
            }),
    {
        let mut mixr = Mixer::new(id);
        mixr.is_transient = true;
        mixr
    }

    /// Append a synth to this node.
    pub fn add_synth(&mut self, s: S)
        ensures
            final(self)@ == (MixerView { synths: old(self)@.synths.push(s), ..old(self)@ }),
    {
        self.synths.push(s);
    }

    /// Append an effect to this node's chain.
    pub fn add_efx(&mut self, efx: E)
        ensures
            final(self)@ == (MixerView { effects: old(self)@.effects.push(efx), ..old(self)@ }),
    {
        self.effects.push(efx);
    }

    /// How many mixers this subtree holds, itself included.
    pub fn mixer_count(&self) -> (r: usize)
        requires
            self@.count_spec() <= usize::MAX,
        ensures
            r == self@.count_spec(),
        decreases *self,
    {
        let mut cnt: usize = 1;
        let mut i: usize = 0;
        proof {
            lemma_mixers_view_index(self.sub_mixers@);
        }
        while i < self.sub_mixers.len()
            invariant
                0 <= i <= self.sub_mixers@.len(),
                self@.count_spec() <= usize::MAX,
                self@.sub_mixers == mixers_view(self.sub_mixers@),
                mixers_view(self.sub_mixers@).len() == self.sub_mixers@.len(),
                forall|j: int|
                    0 <= j < self.sub_mixers@.len() ==> mixers_view(self.sub_mixers@)[j]
                        == self.sub_mixers@[j]@,
                cnt == 1 + count_subs(self@.sub_mixers.take(i as int)),
            decreases self.sub_mixers@.len() - i,
        {
            proof {
                lemma_count_subs_take_step(self@.sub_mixers, i as int);
                lemma_count_subs_prefix(self@.sub_mixers, i + 1);
            }
            let c = self.sub_mixers[i].mixer_count();
            cnt = cnt + c;
            i = i + 1;
        }
        proof {
            assert(self@.sub_mixers.take(self.sub_mixers@.len() as int) =~= self@.sub_mixers);
        }
        cnt
    }

    /// The first node (in depth-first order) carrying this id.
    pub fn find_mixer(&self, id: &str) -> (r: Option<&Mixer<S, E>>)
        ensures
            match r {
                Some(m) => self@.has_mixer(id@) && Some(m@) == find_spec(self@, id@),
                None => !self@.has_mixer(id@),
            },
        decreases *self,
    {
        let key: String = id.to_owned();
        if self.id == key {
            Some(self)
        } else {
            proof {
                lemma_mixers_view_index(self.sub_mixers@);
                assert(self@.sub_mixers.skip(0) =~= self@.sub_mixers);
            }
            let mut i: usize = 0;
            while i < self.sub_mixers.len()
                invariant
                    0 <= i <= self.sub_mixers@.len(),
                    key@ == id@,
                    self@.id != id@,
                    self@.sub_mixers == mixers_view(self.sub_mixers@),
                    mixers_view(self.sub_mixers@).len() == self.sub_mixers@.len(),
                    forall|j: int|
                        0 <= j < self.sub_mixers@.len() ==> mixers_view(self.sub_mixers@)[j]
                            == self.sub_mixers@[j]@,
                    forall|j: int| 0 <= j < i ==> !self@.sub_mixers[j].has_mixer(id@),
                    find_in_subs(self@.sub_mixers.skip(i as int), id@) == find_in_subs(
                        self@.sub_mixers,
                        id@,
                    ),
                decreases self.sub_mixers@.len() - i,
            {
                let sub = &self.sub_mixers[i];
                let found = sub.find_mixer(id);
                proof {
                    assert(self@.sub_mixers.skip(i as int)[0] == self@.sub_mixers[i as int]);
                    assert(self@.sub_mixers.skip(i as int).drop_first() =~= self@.sub_mixers.skip(
                        i + 1,
                    ));
                }
                match found {
                    Some(m) => {
                        proof {
                            lemma_subs_have_index(self@.sub_mixers, id@);
                            assert(self@.sub_mixers[i as int].has_mixer(id@));
                            assert(find_in_subs(self@.sub_mixers.skip(i as int), id@)
                                == find_spec(self@.sub_mixers[i as int], id@));
                        }
                        return Some(m);
                    },
                    None => {
                    },
                }
                i = i + 1;
            }
            proof {
                assert(self@.sub_mixers.skip(self.sub_mixers@.len() as int)
                    =~= Seq::<MixerView<S, E>>::empty());
                lemma_find_in_subs_has(self@.sub_mixers, id@);
            }
            None
        }
    }

    /// Apply a pending mutation at the first node (in depth-first
    /// order) that carries the target id; an untouched tree gives the
    /// mutation back.
    pub fn insert_at(&mut self, target: &str, ed: TreeEdit<S, E>) -> (r: Result<
        (),
        TreeEdit<S, E>,
    >)
        ensures
            r is Ok <==> old(self)@.has_mixer(target@),
            old(self)@.has_mixer(target@) ==> final(self)@ == edit_at(old(self)@, target@, ed@),
            !old(self)@.has_mixer(target@) ==> final(self)@ == old(self)@ && (match r {
                Err(back) => back@ == ed@,
                _ => false,
            }),
        decreases old(self)@.count_spec(),
    {
        let key: String = target.to_owned();
        if self.id == key {
            match ed {
                TreeEdit::AddSynth(s) => {
                    self.synths.push(s);
                },
                TreeEdit::AddEfx(e) => {
                    self.effects.push(e);
                },
                TreeEdit::AddMixer(m) => {
                    self.add_sub_mixer(m);
                },
            }
            Ok(())
        } else {
            let mut cur = ed;
            proof {
                lemma_mixers_view_index(self.sub_mixers@);
            }
            let mut i: usize = 0;
            while i < self.sub_mixers.len()
                invariant
                    0 <= i <= self.sub_mixers@.len(),
                    key@ == target@,
                    old(self)@.id != target@,
                    self.is_transient == old(self).is_transient,
                    self.synths == old(self).synths,
                    self.effects == old(self).effects,
                    self.id == old(self).id,
                    self.sub_mixers@.len() == old(self).sub_mixers@.len(),
                    mixers_view(self.sub_mixers@) == mixers_view(old(self).sub_mixers@),
                    mixers_view(self.sub_mixers@).len() == self.sub_mixers@.len(),
                    forall|j: int|
                        0 <= j < self.sub_mixers@.len() ==> mixers_view(self.sub_mixers@)[j]
                            == self.sub_mixers@[j]@,
                    forall|j: int| 0 <= j < i ==> !old(self)@.sub_mixers[j].has_mixer(target@),
                    cur@ == ed@,
                decreases self.sub_mixers@.len() - i,
            {
                proof {
                    lemma_count_subs_member(old(self)@.sub_mixers, i as int);
                }
                let sub = &mut self.sub_mixers[i];
                let res = sub.insert_at(target, cur);
                match res {
                    Ok(()) => {
                        proof {
                            let subs0 = old(self)@.sub_mixers;
                            lemma_subs_have_index(subs0, target@);
                            lemma_edit_subs_at(subs0, target@, ed@, i as int);
                            lemma_mixers_view_index(final(self).sub_mixers@);
                            assert(mixers_view(final(self).sub_mixers@) =~= subs0.update(
                                i as int,
                                edit_at(subs0[i as int], target@, ed@),
                            ));
                            assert(final(self)@ =~= edit_at(old(self)@, target@, ed@));
                        }
                        return Ok(());
                    },
                    Err(back) => {
                        cur = back;
                        proof {
                            lemma_mixers_view_index(self.sub_mixers@);
                            assert(mixers_view(self.sub_mixers@) =~= mixers_view(
                                old(self).sub_mixers@,
                            ));
                        }
                    },
                }
                i = i + 1;
            }
            proof {
                lemma_subs_have_index(old(self)@.sub_mixers, target@);
                assert(final(self)@ =~= old(self)@);
            }
            Err(cur)
        }
    }

    /// One tick: sample every synth and sub-mixer, drop the finished
    /// ones, combine the contributions and run them through the
    /// effect chain.  Exactly [`MixerView::step_spec`].
    pub fn sample<T: Amplitude>(&mut self, buses: &BusSystem<T>) -> (r: SoundSample<T>) where
        S: Synth<T>,
        E: Efx<T>,

        requires
            old(self)@.connected_all(buses.channels_view()),
        ensures
            r == old(self)@.step_spec(buses.channels_view()).0,
            final(self)@ == old(self)@.step_spec(buses.channels_view()).1,
            final(self)@.connected_all(buses.channels_view()),
        decreases old(self)@.count_spec(),
    {
        let ghost v = buses.channels_view();
        let ghost orig = self.synths@;
        // 1. sample every synth; drop the finished ones; mix the rest.
        let mut res: SoundSample<T> = SoundSample::Silence;
        let ghost mut k: int = 0;
        let mut i: usize = 0;
        proof {
            assert(orig.take(0) =~= Seq::<S>::empty());
            assert(synth_outs(orig.take(0), v) =~= Seq::<SoundSample<T>>::empty());
            assert(synths_after(orig.take(0), v) =~= Seq::<S>::empty()) by {
                reveal(Seq::filter);
            }
            assert(self.synths@ =~= synths_after(orig.take(0), v) + orig.skip(0));
        }
        while i < self.synths.len()
            invariant
                v == buses.channels_view(),
                orig == old(self).synths@,
                synths_connected(orig, v),
                0 <= k <= orig.len(),
                i as int == synths_after(orig.take(k), v).len(),
                self.synths@ == synths_after(orig.take(k), v) + orig.skip(k),
                res == mix_outs(synth_outs(orig.take(k), v)),
                forall|j: int| 0 <= j < i ==> self.synths@[j].connected(v),
                self.sub_mixers == old(self).sub_mixers,
                self.effects == old(self).effects,
                self.id == old(self).id,
                self.is_transient == old(self).is_transient,
            decreases orig.len() - k,
        {
            proof {
                assert(orig.skip(k)[0] == orig[k]);
                assert(self.synths@[i as int] == orig[k]);
            }
            let s = &mut self.synths[i];
            let out = s.sample(buses);
            proof {
                lemma_synths_step(orig, k, v);
                assert(orig.skip(k).drop_first() =~= orig.skip(k + 1));
            }
            match out {
                SoundSample::Done => {
                    let _finished = self.synths.remove(i);
                    proof {
                        assert(self.synths@ =~= synths_after(orig.take(k + 1), v) + orig.skip(
                            k + 1,
                        ));
                    }
                },
                _ => {
                    res.add_assign(out);
                    i = i + 1;
                    proof {
                        assert(self.synths@ =~= synths_after(orig.take(k + 1), v) + orig.skip(
                            k + 1,
                        ));
                    }
                },
            }
            proof {
                k = k + 1;
            }
        }
        proof {
            assert(orig.take(orig.len() as int) =~= orig);
            assert(orig.skip(orig.len() as int) =~= Seq::<S>::empty());
            assert(self.synths@ =~= synths_after(orig, v));
        }
        // 2. recurse into every sub-mixer; drop those that are done.
        let ghost msv = mixers_view(self.sub_mixers@);
        let mut mres: SoundSample<T> = SoundSample::Silence;
        let ghost mut k2: int = 0;
        let mut i2: usize = 0;
        proof {
            lemma_mixers_view_index(self.sub_mixers@);
            lemma_subs_connected_index(msv, v);
            assert forall|j: int| 0 <= j < msv.len() implies msv[j].count_spec() <= count_subs(
                msv,
            ) by {
                lemma_count_subs_member(msv, j);
            }
            assert(old(self)@.count_spec() == 1 + count_subs(old(self)@.sub_mixers));
            assert(msv.take(0) =~= Seq::<MixerView<S, E>>::empty());
            assert(mixers_view(self.sub_mixers@) =~= subs_step(msv.take(0), v).1 + msv.skip(0));
        }
        while i2 < self.sub_mixers.len()
            invariant
                v == buses.channels_view(),
                msv == mixers_view(old(self).sub_mixers@),
                msv == old(self)@.sub_mixers,
                forall|j: int| 0 <= j < msv.len() ==> msv[j].connected_all(v),
                forall|j: int| 0 <= j < msv.len() ==> msv[j].count_spec() <= count_subs(msv),
                count_subs(msv) < old(self)@.count_spec(),
                0 <= k2 <= msv.len(),
                i2 as int == subs_step(msv.take(k2), v).1.len(),
                mixers_view(self.sub_mixers@) == subs_step(msv.take(k2), v).1 + msv.skip(k2),
                mixers_view(self.sub_mixers@).len() == self.sub_mixers@.len(),
                forall|j: int|
                    0 <= j < self.sub_mixers@.len() ==> mixers_view(self.sub_mixers@)[j]
                        == self.sub_mixers@[j]@,
                mres == subs_step(msv.take(k2), v).0,
                res == mix_outs(synth_outs(orig, v)),
                forall|j: int|
                    0 <= j < i2 ==> mixers_view(self.sub_mixers@)[j].connected_all(v),
                self.synths@ == synths_after(orig, v),
                orig == old(self).synths@,
                forall|j: int| 0 <= j < self.synths@.len() ==> self.synths@[j].connected(v),
                self.effects == old(self).effects,
                self.id == old(self).id,
                self.is_transient == old(self).is_transient,
            decreases msv.len() - k2,
        {
            let ghost prevviews = mixers_view(self.sub_mixers@);
            proof {
                assert(msv.skip(k2)[0] == msv[k2]);
                assert(prevviews[i2 as int] == msv[k2]);
                assert(self.sub_mixers@[i2 as int]@ == msv[k2]);
            }
            let m = &mut self.sub_mixers[i2];
            let out = m.sample(buses);
            proof {
                lemma_subs_step_take(msv, k2, v);
                assert(msv.skip(k2).drop_first() =~= msv.skip(k2 + 1));
            }
            match out {
                SoundSample::Done => {
                    let _finished = self.sub_mixers.remove(i2);
                    proof {
                        lemma_mixers_view_index(self.sub_mixers@);
                        assert(mixers_view(self.sub_mixers@) =~= prevviews.remove(i2 as int));
                        assert(prevviews.remove(i2 as int) =~= subs_step(msv.take(k2 + 1), v).1
                            + msv.skip(k2 + 1));
                    }
                },
                _ => {
                    mres.add_assign(out);
                    i2 = i2 + 1;
                    proof {
                        lemma_mixers_view_index(self.sub_mixers@);
                        assert(mixers_view(self.sub_mixers@) =~= prevviews.update(
                            i2 - 1,
                            msv[k2].step_spec(v).1,
                        ));
                        assert(prevviews.update(i2 - 1, msv[k2].step_spec(v).1) =~= subs_step(
                            msv.take(k2 + 1),
                            v,
                        ).1 + msv.skip(k2 + 1));
                    }
                },
            }
            proof {
                k2 = k2 + 1;
            }
        }
        proof {
            assert(msv.take(msv.len() as int) =~= msv);
            assert(msv.skip(msv.len() as int) =~= Seq::<MixerView<S, E>>::empty());
            assert(mixers_view(self.sub_mixers@) =~= subs_step(msv, v).1);
            assert(mres == subs_step(msv, v).0);
        }
        // 3. combine the two partial mixes.
        res.add_assign(mres);
        proof {
            assert(res == mix_outs(synth_outs(orig, v)).add_spec(subs_step(msv, v).0));
        }
        // 4./5. a frame runs the effect chain; silence stays silence,
        // or asks for removal when the mixer is transient.
        match res {
            SoundSample::Sample(first_val) => {
                let ghost efs = self.effects@;
                let mut val = first_val;
                let mut j: usize = 0;
                proof {
                    lemma_subs_connected_index(mixers_view(self.sub_mixers@), v);
                    assert(efs.skip(0) =~= efs);
                    assert(efs.take(0) =~= Seq::<E>::empty());
                    assert(efx_chain(efs, first_val, v).1 =~= self.effects@.take(0) + efx_chain(
                        efs.skip(0),
                        first_val,
                        v,
                    ).1);
                }
                while j < self.effects.len()
                    invariant
                        v == buses.channels_view(),
                        efs == old(self).effects@,
                        efx_connected(efs, v),
                        0 <= j <= efs.len(),
                        self.effects@.len() == efs.len(),
                        forall|m: int| j <= m < efs.len() ==> self.effects@[m] == efs[m],
                        forall|m: int| 0 <= m < j ==> self.effects@[m].connected(v),
                        mix_outs(synth_outs(orig, v)).add_spec(subs_step(old(self)@.sub_mixers, v).0)
                            == SoundSample::Sample(first_val),
                        efx_chain(efs, first_val, v).0 == efx_chain(efs.skip(j as int), val, v).0,
                        efx_chain(efs, first_val, v).1 == self.effects@.take(j as int) + efx_chain(
                            efs.skip(j as int),
                            val,
                            v,
                        ).1,
                        self.synths@ == synths_after(orig, v),
                        orig == old(self).synths@,
                        forall|m: int| 0 <= m < self.synths@.len() ==> self.synths@[m].connected(v),
                        mixers_view(self.sub_mixers@) == subs_step(old(self)@.sub_mixers, v).1,
                        forall|m: int|
                            0 <= m < mixers_view(self.sub_mixers@).len() ==> mixers_view(
                                self.sub_mixers@,
                            )[m].connected_all(v),
                        self.id == old(self).id,
                        self.is_transient == old(self).is_transient,
                    decreases efs.len() - j,
                {
                    let ghost prevfx = self.effects@;
                    proof {
                        assert(efs.skip(j as int)[0] == efs[j as int]);
                        assert(prevfx[j as int] == efs[j as int]);
                    }
                    let e = &mut self.effects[j];
                    let out = e.sample(val, buses);
                    proof {
                        assert(efs.skip(j as int).drop_first() =~= efs.skip(j + 1));
                    }
                    match out {
                        SoundSample::Sample(processed) => {
                            let ghost oldval = val;
                            val = processed;
                            j = j + 1;
                            proof {
                                assert(self.effects@ =~= prevfx.update(
                                    j - 1,
                                    efs[j - 1].next_state(oldval, v),
                                ));
                                assert(efx_chain(efs.skip(j - 1), oldval, v).1 == seq![
                                    efs[j - 1].next_state(oldval, v)] + efx_chain(
                                    efs.skip(j as int),
                                    val,
                                    v,
                                ).1);
                                assert(efx_chain(efs, first_val, v).1 =~= self.effects@.take(
                                    j as int,
                                ) + efx_chain(efs.skip(j as int), val, v).1);
                            }
                        },
                        _ => {
                            proof {
                                assert(efx_chain(efs.skip(j as int), val, v).0
                                    == SoundSample::<T>::Done);
                                assert(efx_chain(efs.skip(j as int), val, v).1 == seq![
                                    efs[j as int].next_state(val, v)] + efs.skip(j + 1));
                                assert(self.effects@ =~= prevfx.update(
                                    j as int,
                                    efs[j as int].next_state(val, v),
                                ));
                                assert(efx_chain(efs, first_val, v).1 =~= self.effects@);
                                lemma_subs_connected_index(mixers_view(self.sub_mixers@), v);
                                assert(final(self)@ =~= old(self)@.step_spec(v).1);
                                assert(old(self)@.step_spec(v).0 == SoundSample::<T>::Done);
                            }
                            return SoundSample::Done;
                        },
                    }
                }
                proof {
                    assert(j == efs.len());
                    assert(efs.skip(efs.len() as int) =~= Seq::<E>::empty());
                    assert(efx_chain(efs, first_val, v).0 == SoundSample::Sample(val));
                    assert(self.effects@.take(efs.len() as int) =~= self.effects@);
                    assert(efx_chain(efs, first_val, v).1 =~= self.effects@);
                    lemma_subs_connected_index(mixers_view(self.sub_mixers@), v);
                    assert(final(self)@ =~= old(self)@.step_spec(v).1);
                    assert(old(self)@.step_spec(v).0 == SoundSample::Sample(val));
                }
                SoundSample::Sample(val)
            },
            _ => {
                proof {
                    lemma_subs_connected_index(mixers_view(self.sub_mixers@), v);
                    assert(final(self)@ =~= old(self)@.step_spec(v).1);
                }
                if self.is_transient {
                    SoundSample::Done
                } else {
                    SoundSample::Silence
                }
            },
        }
    }

    /// Append a sub-mixer to this node.
    pub fn add_sub_mixer(&mut self, mixer: Mixer<S, E>)
        ensures
            final(self)@ == (MixerView {
                sub_mixers: old(self)@.sub_mixers.push(mixer@),
                ..old(self)@
            }),
    {
        proof {
            lemma_mixers_view_index(old(self).sub_mixers@.push(mixer));
            lemma_mixers_view_index(old(self).sub_mixers@);
            assert(mixers_view(old(self).sub_mixers@.push(mixer)) =~= mixers_view(
                old(self).sub_mixers@,
            ).push(mixer@));
        }
        self.sub_mixers.push(mixer);
    }
}

} // verus!
