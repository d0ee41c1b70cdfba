use vstd::prelude::*;
use crate::rings::overwrite::OverwriteRing;

verus! {

/// The private, overwriting ring of one producer in an
/// [`MPMCBroadcasterUnsafeIndivSPMCCopy`].
pub struct IndivRing<T> {
    pub inner: OverwriteRing<T>,
}

impl<T: Copy> IndivRing<T> {
    pub fn new(ring_size: usize) -> (r: Self)
        requires
            ring_size > 0,
        ensures
            r.inner.wf(),
            r.inner.ring_size == ring_size,
            r.inner.head == 0,
            r.inner.history@ == Seq::<T>::empty(),
    {
        IndivRing { inner: OverwriteRing::new(ring_size) }
    }
}

/// Many producers, many consumers: each producer owns an overwriting ring
/// that nothing gates; every consumer keeps one tail per producer ring and
/// reads the rings in turn. Lapped consumers copy whatever took the slot.
pub struct MPMCBroadcasterUnsafeIndivSPMCCopy<T> {
    pub producer_rings: Vec<IndivRing<T>>,
    pub ring_size: usize,
}

/// The producer-side handle of [`MPMCBroadcasterUnsafeIndivSPMCCopy`].
pub struct MPMCBroadcasterUnsafeIndivSPMCCopyWriter;

/// A consumer: `readers[p]` is its tail in the ring of producer `p`.
pub struct MPMCBroadcasterUnsafeIndivSPMCCopyReader {
    pub readers: Vec<usize>,
}

/// Whether the reader has caught up with every ring before index `k`.
pub open spec fn caught_up_before<T: Copy>(
    g: MPMCBroadcasterUnsafeIndivSPMCCopy<T>,
    tails: Seq<usize>,
    k: int,
) -> bool {
    forall|j: int| 0 <= j < k ==> tails[j] >= (#[trigger] g.producer_rings@[j]).inner.head
}

impl<T: Copy> MPMCBroadcasterUnsafeIndivSPMCCopy<T> {
    pub open spec fn wf(&self) -> bool {
        &&& self.ring_size > 0
        &&& forall|i: int|
            0 <= i < self.producer_rings@.len() ==> (#[trigger] self.producer_rings@[i]).inner.wf()
                && self.producer_rings@[i].inner.ring_size == self.ring_size
    }

    pub open spec fn ring_at(&self, p: int) -> OverwriteRing<T> {
        self.producer_rings@[p].inner
    }

    /// One empty ring per producer, the writer handle, and a reader whose
    /// tails all start at zero.
    pub fn new(producer_threads: usize, ring_size: usize) -> (r: (Self, MPMCBroadcasterUnsafeIndivSPMCCopyWriter, MPMCBroadcasterUnsafeIndivSPMCCopyReader))
        requires
            ring_size > 0,
        ensures
            r.0.wf(),
            r.0.ring_size == ring_size,
            r.0.producer_rings@.len() == producer_threads,
            forall|p: int| 0 <= p < producer_threads ==> (#[trigger] r.0.ring_at(p)).head == 0,
            r.2.readers@ == Seq::new(producer_threads as nat, |p: int| 0usize),
    {
        let mut rings: Vec<IndivRing<T>> = Vec::new();
        let mut readers: Vec<usize> = Vec::new();
        let mut i: usize = 0;
        while i < producer_threads
            invariant
                ring_size > 0,
                i <= producer_threads,
                rings@.len() == i,
                readers@ == Seq::new(i as nat, |p: int| 0usize),
                forall|j: int|
                    0 <= j < i ==> (#[trigger] rings@[j]).inner.wf() && rings@[j].inner.ring_size == ring_size
                        && rings@[j].inner.head == 0,
            decreases producer_threads - i,
        {
            rings.push(IndivRing::new(ring_size));
            readers.push(0);
            i = i + 1;
            assert(readers@ =~= Seq::new(i as nat, |p: int| 0usize));
        }
        (
            MPMCBroadcasterUnsafeIndivSPMCCopy { producer_rings: rings, ring_size },
            MPMCBroadcasterUnsafeIndivSPMCCopyWriter,
            MPMCBroadcasterUnsafeIndivSPMCCopyReader { readers },
        )
    }

    fn placeholder() -> (r: IndivRing<T>) {
        IndivRing { inner: OverwriteRing { head: 0, ring_size: 1, ring: Vec::new(), history: Ghost(Seq::empty()) } }
    }
}

impl MPMCBroadcasterUnsafeIndivSPMCCopyWriter {
    /// Writes `item` at the head of the ring of `producer_id`, over whatever
    /// the slot held.
    pub fn push<T: Copy>(&self, g: &mut MPMCBroadcasterUnsafeIndivSPMCCopy<T>, producer_id: usize, item: T)
        requires
            old(g).wf(),
            producer_id < old(g).producer_rings@.len(),
            old(g).ring_at(producer_id as int).head < usize::MAX,
        ensures
            final(g).wf(),
            final(g).ring_size == old(g).ring_size,
            final(g).producer_rings@.len() == old(g).producer_rings@.len(),
            final(g).ring_at(producer_id as int).head == old(g).ring_at(producer_id as int).head + 1,
            final(g).ring_at(producer_id as int).history@ == old(g).ring_at(producer_id as int).history@.push(item),
            forall|p: int| 0 <= p < final(g).producer_rings@.len() && p != producer_id ==> (#[trigger] final(g).ring_at(p)) == old(g).ring_at(p),
    {
        let mut ring = MPMCBroadcasterUnsafeIndivSPMCCopy::placeholder();
        g.producer_rings.set_and_swap(producer_id, &mut ring);
        proof {
            assert(ring == old(g).producer_rings@[producer_id as int]);
        }
        ring.inner.push(item);
        g.producer_rings.set_and_swap(producer_id, &mut ring);
        proof {
            assert forall|i: int| 0 <= i < g.producer_rings@.len() implies (#[trigger] g.producer_rings@[i]).inner.wf()
                && g.producer_rings@[i].inner.ring_size == g.ring_size by {
                if i != producer_id {
                    assert(g.producer_rings@[i] == old(g).producer_rings@[i]);
                }
            }
        }
    }
}

impl MPMCBroadcasterUnsafeIndivSPMCCopyReader {
    /// Another consumer, whose tails start at the current heads: it sees only
    /// what is written from now on.
    pub fn clone_reader<T: Copy>(&self, g: &MPMCBroadcasterUnsafeIndivSPMCCopy<T>) -> (r: Self)
        ensures
            r.readers@.len() == g.producer_rings@.len(),
            forall|p: int| 0 <= p < g.producer_rings@.len() ==> #[trigger] r.readers@[p] == g.ring_at(p).head,
    {
        let mut readers: Vec<usize> = Vec::new();
        let mut i: usize = 0;
        while i < g.producer_rings.len()
            invariant
                i <= g.producer_rings@.len(),
                readers@.len() == i,
                forall|p: int| 0 <= p < i ==> #[trigger] readers@[p] == g.ring_at(p).head,
            decreases g.producer_rings@.len() - i,
        {
            readers.push(g.producer_rings[i].inner.head);
            i = i + 1;
        }
        MPMCBroadcasterUnsafeIndivSPMCCopyReader { readers }
    }

    /// Copies the next payload from the first producer ring, in producer
    /// order, that this reader has not caught up with; `local_tail` is left as
    /// it is.
    pub fn pop<T: Copy>(&mut self, g: &MPMCBroadcasterUnsafeIndivSPMCCopy<T>, local_tail: &mut usize) -> (r: Option<T>)
        requires
            g.wf(),
            old(self).readers@.len() == g.producer_rings@.len(),
        ensures
            *final(local_tail) == *old(local_tail),
            final(self).readers@.len() == old(self).readers@.len(),
            caught_up_before(*g, old(self).readers@, g.producer_rings@.len() as int) ==> r is None
                && final(self).readers@ == old(self).readers@,
            r is None ==> caught_up_before(*g, old(self).readers@, g.producer_rings@.len() as int),
            r is Some ==> exists|k: int|
                0 <= k < g.producer_rings@.len() && caught_up_before(*g, old(self).readers@, k)
                    && old(self).readers@[k] < (#[trigger] g.ring_at(k)).head
                    && r == Some(g.ring_at(k).history@[g.ring_at(k).read_cursor(old(self).readers@[k] as int)])
                    && final(self).readers@ == old(self).readers@.update(k, (old(self).readers@[k] + 1) as usize),
    {
        let n = g.producer_rings.len();
        let mut i: usize = 0;
        while i < n
            invariant
                *self == *old(self),
                n == g.producer_rings@.len(),
                n == self.readers@.len(),
                i <= n,
                g.wf(),
                caught_up_before(*g, self.readers@, i as int),
            decreases n - i,
        {
            let mut t = self.readers[i];
            if t < g.producer_rings[i].inner.head {
                proof {
                    assert(g.producer_rings@[i as int].inner.wf());
                    if caught_up_before(*g, old(self).readers@, n as int) {
                        assert(old(self).readers@[i as int] >= g.producer_rings@[i as int].inner.head);
                    }
                }
                let r = g.producer_rings[i].inner.pop(&mut t);
                self.readers.set(i, t);
                proof {
                    let k = i as int;
                    assert(g.ring_at(k) == g.producer_rings@[k].inner);
                    assert(old(self).readers@[k] < g.ring_at(k).head);
                    assert(caught_up_before(*g, old(self).readers@, k));
                    assert(self.readers@ == old(self).readers@.update(k, (old(self).readers@[k] + 1) as usize));
                }
                return r;
            }
            i = i + 1;
        }
        None
    }
}

} // verus!
