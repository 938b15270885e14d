//! A fixed-size circular store of the most recent samples.

use vstd::prelude::*;

verus! {

/// Position in the buffer of the `j`-th oldest sample when the oldest one
/// sits at `start` and the buffer holds `n` slots.
pub open spec fn slot(start: int, j: int, n: int) -> int {
    if start + j < n {
        start + j
    } else {
        start + j - n
    }
}

/// The last `len` samples of a stream, oldest first. The slot at `next` is the
/// one overwritten by the next push and holds the oldest sample.
pub struct SampleRing<T> {
    slots: Vec<T>,
    next: usize,
    fill: Ghost<T>,
    history: Ghost<Seq<T>>,
}

impl<T: Copy> SampleRing<T> {
    pub closed spec fn len(&self) -> nat {
        self.slots@.len()
    }

    /// Every sample pushed since construction, in order.
    pub closed spec fn history(&self) -> Seq<T> {
        self.history@
    }

    /// The value the ring was filled with at construction.
    pub closed spec fn fill(&self) -> T {
        self.fill@
    }

    /// Number of pushes since construction.
    pub open spec fn pushes(&self) -> nat {
        self.history().len()
    }

    /// The history preceded by one window of the fill value.
    pub open spec fn stream(&self) -> Seq<T> {
        Seq::new(self.len(), |_j: int| self.fill()) + self.history()
    }

    /// Index of the slot that the next push overwrites.
    pub closed spec fn next_slot(&self) -> nat {
        self.next as nat
    }

    /// The retained samples, oldest first.
    pub closed spec fn window(&self) -> Seq<T> {
        Seq::new(self.len(), |j: int| self.slots@[slot(self.next as int, j, self.len() as int)])
    }

    /// The last `len()` values of the stream.
    pub open spec fn latest(&self) -> Seq<T> {
        self.stream().subrange(self.pushes() as int, (self.pushes() + self.len()) as int)
    }

    pub closed spec fn wf(&self) -> bool {
        &&& self.slots@.len() > 0
        &&& self.next < self.slots@.len()
        &&& self.history@.len() < self.slots@.len() ==> self.next == self.history@.len()
        &&& self.window() == self.latest()
    }

    /// Until the first wrap the write position counts the pushes.
    pub proof fn lemma_position(&self)
        requires
            self.wf(),
        ensures
            self.len() > 0,
            self.next_slot() < self.len(),
            self.pushes() < self.len() ==> self.next_slot() == self.pushes(),
    {
    }

    /// The window is the last `len()` values of the stream: the samples
    /// pushed so far, after as many fill values as the ring has slots.
    pub proof fn lemma_window_is_latest(&self)
        requires
            self.wf(),
        ensures
            self.window() == self.latest(),
    {
    }

    /// A ring of `size` slots, each holding `fill`.
    pub fn new(size: usize, fill: T) -> (r: Self)
        requires
            size > 0,
        ensures
            r.wf(),
            r.len() == size,
            r.history() == Seq::<T>::empty(),
            r.fill() == fill,
            r.next_slot() == 0,
            r.window() == Seq::new(size as nat, |_j: int| fill),
    {
        let mut slots: Vec<T> = Vec::new();
        let mut k: usize = 0;
        while k < size
            invariant
                k <= size,
                slots@ == Seq::new(k as nat, |_j: int| fill),
            decreases size - k,
        {
            slots.push(fill);
            k = k + 1;
            assert(slots@ =~= Seq::new(k as nat, |_j: int| fill));
        }
        let r = SampleRing { slots, next: 0, fill: Ghost(fill), history: Ghost(Seq::empty()) };
        assert(r.window() =~= Seq::new(size as nat, |_j: int| fill));
        assert(r.stream() =~= Seq::new(size as nat, |_j: int| fill));
        assert(r.latest() =~= r.window());
        r
    }

    pub fn size(&self) -> (r: usize)
        requires
            self.wf(),
        ensures
            r == self.len(),
    {
        self.slots.len()
    }

    /// Index of the slot that the next push overwrites.
    pub fn position(&self) -> (r: usize)
        requires
            self.wf(),
        ensures
            r == self.next_slot(),
            r < self.len(),
    {
        self.next
    }

    /// Stores `x` in place of the oldest sample, which is returned.
    pub fn push(&mut self, x: T) -> (evicted: T)
        requires
            old(self).wf(),
        ensures
            final(self).wf(),
            final(self).len() == old(self).len(),
            final(self).fill() == old(self).fill(),
            final(self).history() == old(self).history().push(x),
            evicted == old(self).window()[0],
            evicted == old(self).stream()[old(self).pushes() as int],
            final(self).window() == old(self).window().drop_first().push(x),
            final(self).next_slot() == if old(self).next_slot() + 1 == old(self).len() {
                0
            } else {
                old(self).next_slot() + 1
            },
    {
        let ghost before = self.window();
        assert(before[0] == self.latest()[0]);
        let n = self.slots.len();
        let evicted = self.slots[self.next];
        self.slots.set(self.next, x);
        if self.next + 1 == n {
            self.next = 0;
        } else {
            self.next = self.next + 1;
        }
        let ghost old_stream = self.stream();
        self.history = Ghost(self.history@.push(x));
        assert(self.window() =~= before.drop_first().push(x));
        assert(self.stream() =~= old_stream.push(x));
        assert(self.window() =~= self.latest());
        evicted
    }
}

} // verus!
