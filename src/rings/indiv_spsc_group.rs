use vstd::prelude::*;
use crate::rings::fifo::SeqFifo;

verus! {

/// The private ring of one producer in an [`MPSCIndivSPSCGroup`].
pub struct IndivRing<T> {
    pub inner: SeqFifo<T>,
}

impl<T> IndivRing<T> {
    pub fn new(ring_size: usize) -> (r: Self)
        requires
            0 < ring_size < usize::MAX,
        ensures
            r.inner.wf(),
            r.inner.ring_size == ring_size,
            r.inner.view() == Seq::<T>::empty(),
            r.inner.has_room(),
            r.inner.head == 0,
            r.inner.tail == 0,
            r.inner.ring@.len() == ring_size,
            forall|i: int| 0 <= i < ring_size ==> (#[trigger] r.inner.ring@[i]).seq == i,
    {
        IndivRing { inner: SeqFifo::new(ring_size) }
    }
}

/// Many producers, one consumer: each producer owns a private ring, so
/// producers never contend; the consumer scans the rings in order and takes
/// from the first that holds a payload.
pub struct MPSCIndivSPSCGroup<T> {
    pub rings: Vec<IndivRing<T>>,
    pub ring_size: usize,
}

/// The producer-side handle of [`MPSCIndivSPSCGroup`].
pub struct MPSCIndivSPSCGroupWriter;

/// The consumer-side handle of [`MPSCIndivSPSCGroup`].
pub struct MPSCIndivSPSCGroupReader;

/// A freshly built ring: both cursors at zero and slot `i` waiting for the
/// write of cursor `i`.
pub open spec fn initial_ring<T>(r: SeqFifo<T>, ring_size: usize) -> bool {
    &&& r.head == 0
    &&& r.tail == 0
    &&& r.ring@.len() == ring_size
    &&& forall|i: int| 0 <= i < ring_size ==> (#[trigger] r.ring@[i]).seq == i
}

/// Whether every queue before index `k` is empty.
pub open spec fn empty_before<T>(views: Seq<Seq<T>>, k: int) -> bool {
    forall|j: int| 0 <= j < k ==> (#[trigger] views[j]).len() == 0
}

impl<T> MPSCIndivSPSCGroup<T> {
    pub open spec fn wf(&self) -> bool {
        &&& 0 < self.ring_size < usize::MAX
        &&& forall|i: int|
            0 <= i < self.rings@.len() ==> (#[trigger] self.rings@[i]).inner.wf()
                && self.rings@[i].inner.ring_size == self.ring_size
    }

    /// The payloads waiting in each producer's ring, oldest first.
    pub open spec fn view(&self) -> Seq<Seq<T>> {
        Seq::new(self.rings@.len(), |i: int| self.rings@[i].inner.view())
    }

    pub open spec fn has_room(&self) -> bool {
        forall|i: int| 0 <= i < self.rings@.len() ==> (#[trigger] self.rings@[i]).inner.has_room()
    }

    /// One empty ring of `ring_size` slots per producer, with the handles.
    pub fn new(producer_threads: usize, ring_size: usize) -> (r: (Self, MPSCIndivSPSCGroupWriter, MPSCIndivSPSCGroupReader))
        requires
            0 < ring_size < usize::MAX,
        ensures
            r.0.wf(),
            r.0.has_room(),
            r.0.ring_size == ring_size,
            r.0.view() == Seq::new(producer_threads as nat, |i: int| Seq::<T>::empty()),
            r.0.rings@.len() == producer_threads,
            forall|p: int|
                0 <= p < producer_threads ==> #[trigger] initial_ring(r.0.rings@[p].inner, ring_size),
    {
        let mut rings: Vec<IndivRing<T>> = Vec::new();
        let mut i: usize = 0;
        while i < producer_threads
            invariant
                0 < ring_size < usize::MAX,
                i <= producer_threads,
                rings@.len() == i,
                forall|j: int|
                    0 <= j < i ==> (#[trigger] rings@[j]).inner.wf() && rings@[j].inner.ring_size == ring_size
                        && rings@[j].inner.view() == Seq::<T>::empty() && rings@[j].inner.has_room()
                        && initial_ring(rings@[j].inner, ring_size),
            decreases producer_threads - i,
        {
            rings.push(IndivRing::new(ring_size));
            i = i + 1;
        }
        let g = MPSCIndivSPSCGroup { rings, ring_size };
        assert(g.view() =~= Seq::new(producer_threads as nat, |i: int| Seq::<T>::empty()));
        (g, MPSCIndivSPSCGroupWriter, MPSCIndivSPSCGroupReader)
    }

    /// A ring with no slots, held in a vector position while its ring is
    /// taken out to be changed.
    fn placeholder() -> (r: IndivRing<T>) {
        IndivRing { inner: SeqFifo { head: 0, tail: 0, ring_size: 1, ring: Vec::new(), history: Ghost(Seq::empty()) } }
    }
}

impl MPSCIndivSPSCGroupWriter {
    /// Appends `item` to the ring of `producer_id` unless it is full; hands it
    /// back then.
    pub fn push<T>(&self, group: &mut MPSCIndivSPSCGroup<T>, producer_id: usize, item: T) -> (r: Result<(), T>)
        requires
            old(group).wf(),
            old(group).has_room(),
            producer_id < old(group).rings@.len(),
        ensures
            final(group).wf(),
            final(group).ring_size == old(group).ring_size,
            final(group).view().len() == old(group).view().len(),
            old(group).view()[producer_id as int].len() < old(group).ring_size ==> r is Ok
                && final(group).view() == old(group).view().update(
                producer_id as int,
                old(group).view()[producer_id as int].push(item),
            ),
            old(group).view()[producer_id as int].len() == old(group).ring_size ==> r == Err::<(), T>(item)
                && final(group).view() == old(group).view(),
            forall|i: int| 0 <= i < final(group).rings@.len() && i != producer_id ==> (#[trigger] final(group).rings@[i]) == old(group).rings@[i],
            r is Ok ==> final(group).rings@[producer_id as int].inner.history@ == old(group).rings@[producer_id as int].inner.history@.push(item),
            r is Err ==> final(group).rings@[producer_id as int] == old(group).rings@[producer_id as int],
    {
        let mut ring = MPSCIndivSPSCGroup::placeholder();
        group.rings.set_and_swap(producer_id, &mut ring);
        proof {
            assert(ring == old(group).rings@[producer_id as int]);
        }
        let r = ring.inner.push(item);
        group.rings.set_and_swap(producer_id, &mut ring);
        proof {
            assert forall|i: int| 0 <= i < group.rings@.len() implies (#[trigger] group.rings@[i]).inner.wf()
                && group.rings@[i].inner.ring_size == group.ring_size by {
                if i != producer_id {
                    assert(group.rings@[i] == old(group).rings@[i]);
                }
            }
            if r is Ok {
                assert(group.view() =~= old(group).view().update(
                    producer_id as int,
                    old(group).view()[producer_id as int].push(item),
                ));
            } else {
                assert(group.view() =~= old(group).view());
            }
        }
        r
    }
}

impl MPSCIndivSPSCGroupReader {
    /// Takes the oldest payload of the first producer ring, in producer
    /// order, that holds one; `local_tail` is left as it is.
    pub fn pop<T>(&self, group: &mut MPSCIndivSPSCGroup<T>, local_tail: &mut usize) -> (r: Option<T>)
        requires
            old(group).wf(),
        ensures
            final(group).wf(),
            final(group).ring_size == old(group).ring_size,
            *final(local_tail) == *old(local_tail),
            old(group).has_room() ==> final(group).has_room(),
            empty_before(old(group).view(), old(group).view().len() as int) ==> r is None
                && final(group).view() == old(group).view(),
            r is Some ==> exists|k: int|
                0 <= k < old(group).view().len() && empty_before(old(group).view(), k) && #[trigger] old(group).view()[k].len() > 0
                    && r == Some(old(group).view()[k][0]) && final(group).view() == old(group).view().update(
                    k,
                    old(group).view()[k].drop_first(),
                ) && final(group).rings@[k].inner.delivered() == old(group).rings@[k].inner.delivered().push(r->0)
                    && final(group).rings@[k].inner.history == old(group).rings@[k].inner.history
                    && (forall|j: int| 0 <= j < final(group).rings@.len() && j != k ==> #[trigger] final(group).rings@[j] == old(group).rings@[j]),
            final(group).rings@.len() == old(group).rings@.len(),
            r is None ==> empty_before(old(group).view(), old(group).view().len() as int)
                && *final(group) == *old(group),
    {
        let n = group.rings.len();
        let mut i: usize = 0;
        while i < n
            invariant
                *group == *old(group),
                n == group.rings@.len(),
                i <= n,
                group.wf(),
                empty_before(group.view(), i as int),
            decreases n - i,
        {
            if group.rings[i].inner.head > group.rings[i].inner.tail {
                let mut ring = MPSCIndivSPSCGroup::placeholder();
                group.rings.set_and_swap(i, &mut ring);
                proof {
                    assert(ring == old(group).rings@[i as int]);
                }
                let r = ring.inner.pop();
                group.rings.set_and_swap(i, &mut ring);
                proof {
                    assert forall|j: int| 0 <= j < group.rings@.len() implies (#[trigger] group.rings@[j]).inner.wf()
                        && group.rings@[j].inner.ring_size == group.ring_size by {
                        if j != i {
                            assert(group.rings@[j] == old(group).rings@[j]);
                        }
                    }
                    assert(group.view() =~= old(group).view().update(i as int, old(group).view()[i as int].drop_first()));
                    assert(old(group).view()[i as int].len() > 0);
                    assert forall|j: int| 0 <= j < group.rings@.len() && j != i implies #[trigger] group.rings@[j] == old(group).rings@[j] by {}
                }
                return r;
            }
            i = i + 1;
        }
        None
    }
}

} // verus!
