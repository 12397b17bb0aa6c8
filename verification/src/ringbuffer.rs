use vstd::prelude::*;

verus! {

/// A fixed-size ring buffer: the delay line of the plucked-string
/// synthesiser.
///
/// `queue` exchanges the incoming element with the one stored longest
/// ago, so a buffer of length `N` delays every value by exactly `N`
/// queue operations (see [`lemma_delay_line`]).
pub struct FixedRingBuffer<T> {
    queue: Vec<T>,
    /// index of last input (so output is right behind)
    idx: usize,
}

impl<T: Copy> FixedRingBuffer<T> {
    /// The buffer holds its slots in working order.
    pub closed spec fn wf(self) -> bool {
        self.idx < self.queue@.len()
    }

    /// The stored values, newest first: `contents()[k]` was queued `k`
    /// operations ago, so the last entry leaves on the next `queue`.
    pub closed spec fn contents(self) -> Seq<T> {
        self.queue@.skip(self.idx as int) + self.queue@.take(self.idx as int)
    }

    #[inline]
    pub fn len(&self) -> (r: usize)
        ensures
            self.wf() ==> r == self.contents().len(),
    {
        self.queue.len()
    }

    /// queue/dequeue in one op: `elem` goes in, the value queued
    /// `len()` operations ago comes out through the same reference.
    pub fn queue(&mut self, elem: &mut T)
        requires
            old(self).wf(),
            old(self).contents().len() > 0,
        ensures
            final(self).wf(),
            final(self).contents() == seq![*old(elem)] + old(self).contents().drop_last(),
            *final(elem) == old(self).contents().last(),
    {
        let len = self.queue.len();
        let p = if self.idx == 0 {
            len - 1
        } else {
            self.idx - 1
        };
        let slot = &mut self.queue[p];
        let out = *slot;
        *slot = *elem;
        *elem = out;
        self.idx = p;
        proof {
            assert(final(self).contents() =~= seq![*old(elem)] + old(self).contents().drop_last());
            if old(self).idx == 0 {
                assert(old(self).contents().last() == old(self).queue@[len - 1]);
            }
        }
    }

    /// reset all elements
    pub fn set_all(&mut self, elem: T)
        requires
            old(self).wf(),
        ensures
            final(self).wf(),
            final(self).contents() == Seq::new(old(self).contents().len(), |i: int| elem),
    {
        let mut i: usize = 0;
        while i < self.queue.len()
            invariant
                self.queue@.len() == old(self).queue@.len(),
                self.idx == old(self).idx,
                old(self).wf(),
                forall|j: int| 0 <= j < i ==> self.queue@[j] == elem,
                forall|j: int| i <= j < self.queue@.len() ==> self.queue@[j] == old(self).queue@[j],
            decreases self.queue@.len() - i,
        {
            let slot = &mut self.queue[i];
            *slot = elem;
            i = i + 1;
        }
        proof {
            assert(final(self).contents() =~= Seq::new(old(self).contents().len(), |i: int| elem));
        }
    }

    /// Build a buffer from its initial slots, the last one first in
    /// queue order.
    pub fn from_vec(vec: Vec<T>) -> (r: FixedRingBuffer<T>)
        ensures
            vec@.len() > 0 ==> r.wf(),
            r.contents() == vec@,
    {
        let r = FixedRingBuffer { queue: vec, idx: 0 };
        proof {
            assert(r.contents() =~= r.queue@);
        }
        r
    }
}

/// One queue operation on the modelled contents: the new value enters
/// in front, the oldest entry leaves.
pub open spec fn delay_step<T>(c: Seq<T>, v: T) -> Seq<T> {
    seq![v] + c.drop_last()
}

/// The contents after feeding `vs[0], vs[1], ..., vs[k-1]` in order
/// into a line that started as `c0`.
pub open spec fn delay_feed<T>(c0: Seq<T>, vs: Seq<T>, k: int) -> Seq<T>
    decreases k,
{
    if k <= 0 {
        c0
    } else {
        delay_step(delay_feed(c0, vs, k - 1), vs[k - 1])
    }
}

/// What leaves the line on feed number `j` (counting from 0): the last
/// entry of the contents that feed finds.
pub open spec fn delay_out_at<T>(c0: Seq<T>, vs: Seq<T>, j: int) -> T {
    delay_feed(c0, vs, j).last()
}

/// After `k` feeds the line still holds `c0.len()` values, and entry
/// `m` is the value fed `m` operations ago (when `m < k`).
proof fn lemma_delay_feed_entries<T>(c0: Seq<T>, vs: Seq<T>, k: int, m: int)
    requires
        c0.len() > 0,
        0 <= k <= vs.len(),
        0 <= m < c0.len(),
        m < k,
    ensures
        delay_feed(c0, vs, k).len() == c0.len(),
        delay_feed(c0, vs, k)[m] == vs[k - 1 - m],
    decreases k,
{
    lemma_delay_feed_len(c0, vs, k);
    if m > 0 {
        lemma_delay_feed_entries(c0, vs, k - 1, m - 1);
    } else {
        lemma_delay_feed_len(c0, vs, k - 1);
    }
}

/// Feeding keeps the length of the line.
proof fn lemma_delay_feed_len<T>(c0: Seq<T>, vs: Seq<T>, k: int)
    requires
        c0.len() > 0,
        0 <= k <= vs.len(),
    ensures
        delay_feed(c0, vs, k).len() == c0.len(),
    decreases k,
{
    if k > 0 {
        lemma_delay_feed_len(c0, vs, k - 1);
    }
}

/// A delay line of length `N` delays by exactly `N`: whatever the line
/// held at the start, the value fed at tick `i` is the value dequeued
/// at tick `i + N`, for every `i`.
pub proof fn lemma_delay_line<T>(c0: Seq<T>, vs: Seq<T>, i: int)
    requires
        c0.len() > 0,
        0 <= i,
        i + c0.len() < vs.len(),
    ensures
        delay_out_at(c0, vs, i + c0.len()) == vs[i],
{
    let n = c0.len() as int;
    lemma_delay_feed_entries(c0, vs, i + n, n - 1);
    lemma_delay_feed_len(c0, vs, i + n);
}

} // verus!
