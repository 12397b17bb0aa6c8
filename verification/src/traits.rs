use vstd::prelude::*;

verus! {

/// The scalar every audio frame is made of.
///
/// The engine never fixes the scalar: mixing, effects and parameter
/// formulas only need the operations below.  Contracts are stated over
/// the `*_spec` functions; the two proof obligations pin down the laws
/// the mixing algebra relies on (addition commutes and associates).
/// The crate provides an `i64` instance; clients pick their own scalar
/// (an audio program would wrap its sample format) and implement this
/// trait for it.
pub trait Amplitude: Copy + Sized {
    /// What `add` returns.
    spec fn add_spec(self, other: Self) -> Self;

    /// What `mul` returns.
    spec fn mul_spec(self, other: Self) -> Self;

    /// What `sub` returns.
    spec fn sub_spec(self, other: Self) -> Self;

    /// What `zero` returns: the default value of a fresh bus channel.
    spec fn zero_spec() -> Self;

    /// What `one` returns: the neutral volume.
    spec fn one_spec() -> Self;

    fn add(self, other: Self) -> (r: Self)
        ensures
            r == self.add_spec(other),
    ;

    fn mul(self, other: Self) -> (r: Self)
        ensures
            r == self.mul_spec(other),
    ;

    fn sub(self, other: Self) -> (r: Self)
        ensures
            r == self.sub_spec(other),
    ;

    fn zero() -> (r: Self)
        ensures
            r == Self::zero_spec(),
    ;

    fn one() -> (r: Self)
        ensures
            r == Self::one_spec(),
    ;

    /// Addition of amplitudes commutes.
    proof fn add_commutes(a: Self, b: Self)
        ensures
            a.add_spec(b) == b.add_spec(a),
    ;

    /// Addition of amplitudes associates.
    proof fn add_associates(a: Self, b: Self, c: Self)
        ensures
            a.add_spec(b).add_spec(c) == a.add_spec(b.add_spec(c)),
    ;
}

/// Amplitudes as plain machine integers, with wrapping arithmetic: the
/// instance the crate's own proofs and integer tests run on.
impl Amplitude for i64 {
    open spec fn add_spec(self, other: Self) -> Self {
        vstd::wrapping::i64_specs::wrapping_add(self, other)
    }

    open spec fn mul_spec(self, other: Self) -> Self {
        vstd::wrapping::i64_specs::wrapping_mul(self, other)
    }

    open spec fn sub_spec(self, other: Self) -> Self {
        vstd::wrapping::i64_specs::wrapping_sub(self, other)
    }

    open spec fn zero_spec() -> Self {
        0i64
    }

    open spec fn one_spec() -> Self {
        1i64
    }

    fn add(self, other: Self) -> (r: Self) {
        self.wrapping_add(other)
    }

    fn mul(self, other: Self) -> (r: Self) {
        self.wrapping_mul(other)
    }

    fn sub(self, other: Self) -> (r: Self) {
        self.wrapping_sub(other)
    }

    fn zero() -> (r: Self) {
        0i64
    }

    fn one() -> (r: Self) {
        1i64
    }

    proof fn add_commutes(a: Self, b: Self) {
    }

    proof fn add_associates(a: Self, b: Self, c: Self) {
    }
}

/// A non-silent sound frame: one channel, or a right/left pair.
#[derive(Debug, PartialEq, Clone, Copy)]
pub enum SampleValue<T> {
    /// Stereo (right, left)
    Stereo(T, T),
    /// Mono
    Mono(T),
}

impl<T: Amplitude> SampleValue<T> {
    /// What `add` returns: mono joins mono channel-wise; a mono value
    /// mixed with a stereo one is added to both channels; two stereo
    /// values add channel-wise.
    pub open spec fn add_spec(self, other: Self) -> Self {
        match (self, other) {
            (SampleValue::Mono(x), SampleValue::Mono(y)) => SampleValue::Mono(x.add_spec(y)),
            (SampleValue::Mono(x), SampleValue::Stereo(yr, yl)) => SampleValue::Stereo(
                yr.add_spec(x),
                yl.add_spec(x),
            ),
            (SampleValue::Stereo(xr, xl), SampleValue::Mono(y)) => SampleValue::Stereo(
                xr.add_spec(y),
                xl.add_spec(y),
            ),
            (SampleValue::Stereo(xr, xl), SampleValue::Stereo(yr, yl)) => SampleValue::Stereo(
                xr.add_spec(yr),
                xl.add_spec(yl),
            ),
        }
    }

    /// The automatic mixer: combine two frames.
    pub fn add(self, other: Self) -> (r: Self)
        ensures
            r == self.add_spec(other),
    {
        match self {
            SampleValue::Mono(x) => match other {
                SampleValue::Mono(y) => SampleValue::Mono(x.add(y)),
                SampleValue::Stereo(yr, yl) => SampleValue::Stereo(yr.add(x), yl.add(x)),
            },
            SampleValue::Stereo(xr, xl) => match other {
                SampleValue::Mono(y) => SampleValue::Stereo(xr.add(y), xl.add(y)),
                SampleValue::Stereo(yr, yl) => SampleValue::Stereo(xr.add(yr), xl.add(yl)),
            },
        }
    }

    /// In-place variant of `add`.
    pub fn add_assign(&mut self, other: Self)
        ensures
            *final(self) == old(self).add_spec(other),
    {
        let joined = self.add(other);
        *self = joined;
    }

    /// Frame combination commutes.
    pub proof fn lemma_add_commutes(a: Self, b: Self)
        ensures
            a.add_spec(b) == b.add_spec(a),
    {
        match (a, b) {
            (SampleValue::Mono(x), SampleValue::Mono(y)) => {
                T::add_commutes(x, y);
            },
            (SampleValue::Mono(x), SampleValue::Stereo(yr, yl)) => {
                T::add_commutes(yr, x);
                T::add_commutes(yl, x);
            },
            (SampleValue::Stereo(xr, xl), SampleValue::Mono(y)) => {
                T::add_commutes(xr, y);
                T::add_commutes(xl, y);
            },
            (SampleValue::Stereo(xr, xl), SampleValue::Stereo(yr, yl)) => {
                T::add_commutes(xr, yr);
                T::add_commutes(xl, yl);
            },
        }
    }

    /// Frame combination associates.
    pub proof fn lemma_add_associates(a: Self, b: Self, c: Self)
        ensures
            a.add_spec(b).add_spec(c) == a.add_spec(b.add_spec(c)),
    {
        match (a, b, c) {
            (SampleValue::Mono(x), SampleValue::Mono(y), SampleValue::Mono(z)) => {
                T::add_associates(x, y, z);
            },
            (SampleValue::Mono(x), SampleValue::Mono(y), SampleValue::Stereo(zr, zl)) => {
                T::add_associates(zr, y, x);
                T::add_commutes(y, x);
                T::add_associates(zr, x, y);
                T::add_associates(zl, y, x);
                T::add_associates(zl, x, y);
            },
            (SampleValue::Mono(x), SampleValue::Stereo(yr, yl), SampleValue::Mono(z)) => {
                T::add_associates(yr, x, z);
                T::add_associates(yl, x, z);
                T::add_commutes(x, z);
                T::add_associates(yr, z, x);
                T::add_associates(yl, z, x);
            },
            (SampleValue::Stereo(xr, xl), SampleValue::Mono(y), SampleValue::Mono(z)) => {
                T::add_associates(xr, y, z);
                T::add_associates(xl, y, z);
            },
            (SampleValue::Mono(x), SampleValue::Stereo(yr, yl), SampleValue::Stereo(zr, zl)) => {
                T::add_commutes(yr, x);
                T::add_commutes(yl, x);
                T::add_associates(x, yr, zr);
                T::add_associates(x, yl, zl);
                T::add_commutes(x, yr.add_spec(zr));
                T::add_commutes(x, yl.add_spec(zl));
                T::add_commutes(yr.add_spec(x), zr);
                T::add_commutes(yl.add_spec(x), zl);
                T::add_commutes(zr, yr);
                T::add_commutes(zl, yl);
                T::add_associates(zr, yr, x);
                T::add_associates(zl, yl, x);
                T::add_commutes(zr.add_spec(yr), x);
                T::add_commutes(zl.add_spec(yl), x);
                T::add_commutes(zr, yr.add_spec(x));
                T::add_commutes(zl, yl.add_spec(x));
            },
            (SampleValue::Stereo(xr, xl), SampleValue::Mono(y), SampleValue::Stereo(zr, zl)) => {
                T::add_associates(xr, y, zr);
                T::add_associates(xl, y, zl);
                T::add_commutes(y, zr);
                T::add_commutes(y, zl);
                T::add_associates(xr, zr, y);
                T::add_associates(xl, zl, y);
                T::add_commutes(zr, y);
                T::add_commutes(zl, y);
            },
            (SampleValue::Stereo(xr, xl), SampleValue::Stereo(yr, yl), SampleValue::Mono(z)) => {
                T::add_associates(xr, yr, z);
                T::add_associates(xl, yl, z);
            },
            (
                SampleValue::Stereo(xr, xl),
                SampleValue::Stereo(yr, yl),
                SampleValue::Stereo(zr, zl),
            ) => {
                T::add_associates(xr, yr, zr);
                T::add_associates(xl, yl, zl);
            },
        }
    }
}

/// A frame value: an actual sound frame, or one of two silences.
///
/// `Silence` means "alive, contributing nothing this tick"; `Done`
/// means "remove me from the synthesis tree".
#[derive(Debug, PartialEq, Clone, Copy)]
pub enum SoundSample<T> {
    /// A sound frame
    Sample(SampleValue<T>),
    /// Silence
    Silence,
    /// Flag for removal
    Done,
}

impl<T: Amplitude> SoundSample<T> {
    /// What `add` returns: frames add; a frame outlives either
    /// silence; `Silence` outlives `Done`; `Done` is the neutral
    /// element.
    pub open spec fn add_spec(self, other: Self) -> Self {
        match self {
            SoundSample::Sample(x) => match other {
                SoundSample::Sample(y) => SoundSample::Sample(x.add_spec(y)),
                _ => SoundSample::Sample(x),
            },
            SoundSample::Silence => match other {
                SoundSample::Done => SoundSample::Silence,
                _ => other,
            },
            SoundSample::Done => other,
        }
    }

    /// Samples are summable, for mixers.
    pub fn add(self, other: Self) -> (r: Self)
        ensures
            r == self.add_spec(other),
    {
        match self {
            SoundSample::Sample(x) => match other {
                SoundSample::Sample(y) => SoundSample::Sample(x.add(y)),
                _ => SoundSample::Sample(x),
            },
            SoundSample::Silence => match other {
                SoundSample::Done => SoundSample::Silence,
                _ => other,
            },
            SoundSample::Done => other,
        }
    }

    /// In-place variant of `add`.
    pub fn add_assign(&mut self, other: Self)
        ensures
            *final(self) == old(self).add_spec(other),
    {
        let joined = self.add(other);
        *self = joined;
    }

    /// What `sum` returns: the whole collection combined, left to
    /// right, starting from the neutral `Done`.
    pub open spec fn sum_spec(samples: Seq<Self>) -> Self {
        samples.fold_left(SoundSample::Done, |acc: Self, s: Self| acc.add_spec(s))
    }

    /// Combine a whole collection of contributions.
    pub fn sum(samples: Vec<Self>) -> (r: Self)
        ensures
            r == Self::sum_spec(samples@),
    {
        let mut acc = SoundSample::Done;
        let mut i: usize = 0;
        while i < samples.len()
            invariant
                0 <= i <= samples@.len(),
                acc == Self::sum_spec(samples@.take(i as int)),
            decreases samples@.len() - i,
        {
            proof {
                assert(samples@.take(i + 1).drop_last() =~= samples@.take(i as int));
                assert(samples@.take(i + 1).last() == samples@[i as int]);
            }
            acc = acc.add(samples[i]);
            i = i + 1;
        }
        proof {
            assert(samples@.take(samples@.len() as int) =~= samples@);
        }
        acc
    }
}

impl<T: Amplitude> SoundSample<T> {
    /// `Done` is the two-sided combine-identity.
    pub proof fn lemma_done_identity(x: Self)
        ensures
            SoundSample::Done.add_spec(x) == x,
            x.add_spec(SoundSample::Done) == x,
    {
    }

    /// Combination commutes.
    pub proof fn lemma_add_commutes(a: Self, b: Self)
        ensures
            a.add_spec(b) == b.add_spec(a),
    {
        match (a, b) {
            (SoundSample::Sample(x), SoundSample::Sample(y)) => {
                SampleValue::lemma_add_commutes(x, y);
            },
            _ => {},
        }
    }

    /// Combination associates.
    pub proof fn lemma_add_associates(a: Self, b: Self, c: Self)
        ensures
            a.add_spec(b).add_spec(c) == a.add_spec(b.add_spec(c)),
    {
        match (a, b, c) {
            (SoundSample::Sample(x), SoundSample::Sample(y), SoundSample::Sample(z)) => {
                SampleValue::lemma_add_associates(x, y, z);
            },
            _ => {},
        }
    }

    /// Pulling one contribution out of the sum: combining everything
    /// else first and that contribution last changes nothing.
    pub proof fn lemma_sum_remove(s: Seq<Self>, i: int)
        requires
            0 <= i < s.len(),
        ensures
            Self::sum_spec(s) == Self::sum_spec(s.remove(i)).add_spec(s[i]),
        decreases s.len(),
    {
        let front = s.drop_last();
        if i == s.len() - 1 {
            assert(s.remove(i) =~= front);
        } else {
            Self::lemma_sum_remove(front, i);
            let rest = Self::sum_spec(front.remove(i));
            let x = s[i];
            let l = s.last();
            Self::lemma_add_associates(rest, x, l);
            Self::lemma_add_commutes(x, l);
            Self::lemma_add_associates(rest, l, x);
            assert(s.remove(i).drop_last() =~= front.remove(i));
            assert(s.remove(i).last() == l);
        }
    }

    /// The sum of a finite collection of contributions does not
    /// depend on their order: any two arrangements of the same
    /// contributions combine to the same value.
    pub proof fn lemma_sum_order_independent(s: Seq<Self>, t: Seq<Self>)
        requires
            s.to_multiset() == t.to_multiset(),
        ensures
            Self::sum_spec(s) == Self::sum_spec(t),
        decreases t.len(),
    {
        broadcast use vstd::seq_lib::group_to_multiset_ensures;

        s.to_multiset_ensures();
        t.to_multiset_ensures();
        if t.len() == 0 {
            assert(s.to_multiset().len() == 0);
            assert(s =~= t);
        } else {
            let x = t.last();
            assert(t.contains(x));
            assert(t.to_multiset().count(x) > 0);
            assert(s.to_multiset().count(x) > 0);
            assert(s.contains(x));
            let i = choose|i: int| 0 <= i < s.len() && s[i] == x;
            Self::lemma_sum_remove(s, i);
            assert(t.drop_last() =~= t.remove(t.len() - 1));
            assert(s.remove(i).to_multiset() =~= t.drop_last().to_multiset());
            Self::lemma_sum_order_independent(s.remove(i), t.drop_last());
        }
    }
}

/// Creates a Mono sound frame
pub fn mono_value<T: Amplitude>(v: T) -> (r: SoundSample<T>)
    ensures
        r == SoundSample::Sample(SampleValue::Mono(v)),
{
    SoundSample::Sample(SampleValue::Mono(v))
}

/// Create a stereo sound frame
pub fn stereo_value<T: Amplitude>(right: T, left: T) -> (r: SoundSample<T>)
    ensures
        r == SoundSample::Sample(SampleValue::Stereo(right, left)),
{
    SoundSample::Sample(SampleValue::Stereo(right, left))
}

} // verus!
