use vstd::prelude::*;
use crate::rings::skipping::SkippingRing;

verus! {

/// Many producers, one consumer, a shared `tail` kept in the ring: producers
/// claim the head slot once its counter says it was read; a consumer that was
/// lapped moves the shared tail to the most recent payload.
pub struct MPSCGlobalTailLossy<T> {
    pub inner: SkippingRing<T>,
    pub tail: usize,
}

/// The producer-side handle of [`MPSCGlobalTailLossy`].
pub struct MPSCGlobalTailLossyWriter;

/// The consumer-side handle of [`MPSCGlobalTailLossy`].
pub struct MPSCGlobalTailLossyReader;

impl<T> MPSCGlobalTailLossy<T> {
    pub open spec fn wf(&self) -> bool {
        self.inner.wf()
    }

    /// Every payload written so far, in order.
    pub open spec fn history(&self) -> Seq<T> {
        self.inner.history@
    }

    pub open spec fn head(&self) -> int {
        self.inner.head as int
    }

    pub open spec fn capacity(&self) -> nat {
        self.inner.ring_size as nat
    }

    pub open spec fn oldest(&self) -> int {
        self.inner.oldest()
    }

    pub open spec fn unread(&self, c: int) -> bool {
        self.inner.unread(c)
    }

    pub open spec fn has_room(&self) -> bool {
        self.inner.has_room()
    }

    /// An empty ring of `ring_size` slots, with its two handles.
    pub fn new(ring_size: usize) -> (r: (Self, MPSCGlobalTailLossyWriter, MPSCGlobalTailLossyReader))
        requires
            0 < ring_size < usize::MAX,
        ensures
            r.0.wf(),
            r.0.head() == 0,
            r.0.tail == 0,
            r.0.history() == Seq::<T>::empty(),
            r.0.capacity() == ring_size,
    {
        (
            MPSCGlobalTailLossy { inner: SkippingRing::new(ring_size), tail: 0 },
            MPSCGlobalTailLossyWriter,
            MPSCGlobalTailLossyReader,
        )
    }
}

impl MPSCGlobalTailLossyWriter {
    /// Claims the head slot once its previous payload has been read, writes
    /// `item` and commits it; hands `item` back otherwise.
    pub fn push<T>(&self, ring: &mut MPSCGlobalTailLossy<T>, producer_id: usize, item: T) -> (r: Result<(), T>)
        requires
            old(ring).wf(),
            old(ring).has_room(),
        ensures
            final(ring).wf(),
            final(ring).capacity() == old(ring).capacity(),
            final(ring).tail == old(ring).tail,
            old(ring).head() >= old(ring).capacity() && old(ring).unread(
                old(ring).head() - old(ring).capacity(),
            ) ==> r == Err::<(), T>(item) && *final(ring) == *old(ring),
            !(old(ring).head() >= old(ring).capacity() && old(ring).unread(
                old(ring).head() - old(ring).capacity(),
            )) ==> {
                &&& r is Ok
                &&& final(ring).head() == old(ring).head() + 1
                &&& final(ring).history() == old(ring).history().push(item)
                &&& final(ring).unread(old(ring).head())
                &&& forall|c: int| #[trigger] old(ring).unread(c) ==> final(ring).unread(c)
            },
    {
        ring.inner.push_gated(item)
    }
}

impl MPSCGlobalTailLossyReader {
    /// One read attempt at the shared tail, which moves as the private tail
    /// of [`crate::rings::skipping::SkippingRing::pop`] does; `local_tail` is
    /// left as it is.
    pub fn pop<T>(&self, ring: &mut MPSCGlobalTailLossy<T>, local_tail: &mut usize) -> (r: Option<T>)
        requires
            old(ring).wf(),
        ensures
            final(ring).wf(),
            final(ring).head() == old(ring).head(),
            final(ring).capacity() == old(ring).capacity(),
            final(ring).history() == old(ring).history(),
            *final(local_tail) == *old(local_tail),
            r is Some ==> {
                &&& old(ring).tail < final(ring).tail <= old(ring).head()
                &&& r == Some(old(ring).history()[final(ring).tail - 1])
            },
            old(ring).tail >= old(ring).head() ==> r is None && *final(ring) == *old(ring),
            forall|c: int|
                #[trigger] old(ring).unread(c) && c != final(ring).tail - 1 ==> final(ring).unread(c),
            old(ring).inner.slot_at(old(ring).tail as int).seq <= old(ring).tail ==> r is None
                && *final(ring) == *old(ring),
            old(ring).unread(old(ring).tail as int) ==> {
                &&& r == Some(old(ring).history()[old(ring).tail as int])
                &&& final(ring).tail == old(ring).tail + 1
            },
            old(ring).tail < old(ring).oldest() && old(ring).unread(old(ring).head() - 1) ==> {
                &&& r == Some(old(ring).history()[old(ring).head() - 1])
                &&& final(ring).tail == old(ring).head()
            },
    {
        let mut tail = ring.tail;
        let r = ring.inner.pop(&mut tail);
        ring.tail = tail;
        r
    }
}

} // verus!
