//! Multi-producer, single-consumer rings.
use vstd::prelude::*;
use crate::rings::fifo::SeqFifo;
use crate::rings::skipping::SkippingRing;

verus! {

/// Many producers, one consumer, a shared `head` and `tail`: producers claim a
/// slot only while `head - tail < R`, so nothing is lost.
pub struct MPSCGlobalTail<T> {
    pub inner: SeqFifo<T>,
}

/// The producer-side handle of [`MPSCGlobalTail`].
pub struct MPSCGlobalTailWriter;

/// The consumer-side handle of [`MPSCGlobalTail`].
pub struct MPSCGlobalTailReader;

impl<T> MPSCGlobalTail<T> {
    pub open spec fn wf(&self) -> bool {
        self.inner.wf()
    }

    /// The payloads waiting to be read, oldest first.
    pub open spec fn view(&self) -> Seq<T> {
        self.inner.view()
    }

    /// Every payload pushed so far, in order.
    pub open spec fn history(&self) -> Seq<T> {
        self.inner.history@
    }

    /// The payloads taken so far, by any consumer, in the order taken.
    pub open spec fn delivered(&self) -> Seq<T> {
        self.inner.delivered()
    }

    pub open spec fn capacity(&self) -> nat {
        self.inner.ring_size as nat
    }

    pub open spec fn has_room(&self) -> bool {
        self.inner.has_room()
    }

    /// An empty ring of `ring_size` slots, with its two handles.
    pub fn new(ring_size: usize) -> (r: (Self, MPSCGlobalTailWriter, MPSCGlobalTailReader))
        requires
            0 < ring_size < usize::MAX,
        ensures
            r.0.wf(),
            r.0.view() == Seq::<T>::empty(),
            r.0.history() == Seq::<T>::empty(),
            r.0.capacity() == ring_size,
            r.0.has_room(),
    {
        (MPSCGlobalTail { inner: SeqFifo::new(ring_size) }, MPSCGlobalTailWriter, MPSCGlobalTailReader)
    }
}

impl MPSCGlobalTailWriter {
    /// Appends `item` unless the ring holds `capacity` payloads; hands it
    /// back then, for the caller to retry.
    pub fn push<T>(&self, ring: &mut MPSCGlobalTail<T>, producer_id: usize, item: T) -> (r: Result<(), T>)
        requires
            old(ring).wf(),
            old(ring).has_room(),
        ensures
            final(ring).wf(),
            final(ring).capacity() == old(ring).capacity(),
            old(ring).view().len() < old(ring).capacity() ==> r is Ok && final(ring).view()
                == old(ring).view().push(item) && final(ring).history() == old(ring).history().push(item),
            old(ring).view().len() == old(ring).capacity() ==> r == Err::<(), T>(item)
                && final(ring).view() == old(ring).view() && final(ring).history() == old(ring).history(),
            final(ring).has_room() || r is Ok,
    {
        ring.inner.push(item)
    }
}

impl MPSCGlobalTailReader {
    /// Takes the oldest payload, if any; the tail is shared, so
    /// `local_tail` is left as it is.
    pub fn pop<T>(&self, ring: &mut MPSCGlobalTail<T>, local_tail: &mut usize) -> (r: Option<T>)
        requires
            old(ring).wf(),
        ensures
            final(ring).wf(),
            final(ring).capacity() == old(ring).capacity(),
            *final(local_tail) == *old(local_tail),
            final(ring).history() == old(ring).history(),
            old(ring).view().len() > 0 ==> r == Some(old(ring).view()[0]) && final(ring).view()
                == old(ring).view().drop_first() && final(ring).delivered() == old(ring).delivered().push(
                r->0,
            ),
            old(ring).view().len() == 0 ==> r is None && final(ring).view() == old(ring).view(),
            old(ring).has_room() ==> final(ring).has_room(),
    {
        ring.inner.pop()
    }
}

/// Many producers, one consumer with a private tail: producers claim the head
/// slot once its counter says it was read; a lapped consumer skips to the most
/// recent payload.
pub struct MPSCLocalTailLossy<T> {
    pub inner: SkippingRing<T>,
}

/// The producer-side handle of [`MPSCLocalTailLossy`].
pub struct MPSCLocalTailLossyWriter;

/// The consumer-side handle of [`MPSCLocalTailLossy`].
pub struct MPSCLocalTailLossyReader;

impl<T> MPSCLocalTailLossy<T> {
    pub open spec fn wf(&self) -> bool {
        self.inner.wf()
    }

    /// Every payload written so far, in order.
    pub open spec fn history(&self) -> Seq<T> {
        self.inner.history@
    }

    pub open spec fn head(&self) -> int {
        self.inner.head as int
    }

    pub open spec fn capacity(&self) -> nat {
        self.inner.ring_size as nat
    }

    /// The oldest cursor whose payload can still be in the ring.
    pub open spec fn oldest(&self) -> int {
        self.inner.oldest()
    }

    /// Whether the payload of cursor `c` still waits in its slot.
    pub open spec fn unread(&self, c: int) -> bool {
        self.inner.unread(c)
    }

    /// The sequence counter of the slot of cursor `c`.
    pub open spec fn counter_at(&self, c: int) -> int {
        self.inner.slot_at(c).seq as int
    }

    pub open spec fn has_room(&self) -> bool {
        self.inner.has_room()
    }

    /// An empty ring of `ring_size` slots, with its two handles.
    pub fn new(ring_size: usize) -> (r: (Self, MPSCLocalTailLossyWriter, MPSCLocalTailLossyReader))
        requires
            0 < ring_size < usize::MAX,
        ensures
            r.0.wf(),
            r.0.head() == 0,
            r.0.history() == Seq::<T>::empty(),
            r.0.capacity() == ring_size,
    {
        (MPSCLocalTailLossy { inner: SkippingRing::new(ring_size) }, MPSCLocalTailLossyWriter, MPSCLocalTailLossyReader)
    }
}

impl MPSCLocalTailLossyWriter {
    /// Claims the head slot once its previous payload has been read (its
    /// counter equals `head`), writes `item` and commits it; hands `item`
    /// back while the slot still holds an unread payload.
    pub fn push<T>(&self, ring: &mut MPSCLocalTailLossy<T>, producer_id: usize, item: T) -> (r: Result<(), T>)
        requires
            old(ring).wf(),
            old(ring).has_room(),
        ensures
            final(ring).wf(),
            final(ring).capacity() == old(ring).capacity(),
            old(ring).head() >= old(ring).capacity() && old(ring).unread(
                old(ring).head() - old(ring).capacity(),
            ) ==> r == Err::<(), T>(item) && *final(ring) == *old(ring),
            !(old(ring).head() >= old(ring).capacity() && old(ring).unread(
                old(ring).head() - old(ring).capacity(),
            )) ==> {
                &&& r is Ok
                &&& final(ring).head() == old(ring).head() + 1
                &&& final(ring).history() == old(ring).history().push(item)
                &&& final(ring).unread(old(ring).head())
                &&& forall|c: int| #[trigger] old(ring).unread(c) ==> final(ring).unread(c)
            },
    {
        ring.inner.push_gated(item)
    }
}

impl MPSCLocalTailLossyReader {
    /// One read attempt at `*local_tail`: takes the payload there if it is
    /// committed and unread; after being lapped, skips to the most recent
    /// payload, `head - 1`, and takes it.
    pub fn pop<T>(&self, ring: &mut MPSCLocalTailLossy<T>, local_tail: &mut usize) -> (r: Option<T>)
        requires
            old(ring).wf(),
        ensures
            final(ring).wf(),
            final(ring).head() == old(ring).head(),
            final(ring).capacity() == old(ring).capacity(),
            final(ring).history() == old(ring).history(),
            r is Some ==> {
                &&& *old(local_tail) < *final(local_tail) <= old(ring).head()
                &&& r == Some(old(ring).history()[*final(local_tail) - 1])
            },
            *old(local_tail) >= old(ring).head() ==> r is None && *final(local_tail)
                == *old(local_tail) && *final(ring) == *old(ring),
            forall|c: int|
                #[trigger] old(ring).unread(c) && c != *final(local_tail) - 1 ==> final(ring).unread(c),
            old(ring).counter_at(*old(local_tail) as int) <= *old(local_tail) ==> r is None
                && *final(local_tail) == *old(local_tail) && *final(ring) == *old(ring),
            old(ring).unread(*old(local_tail) as int) ==> {
                &&& r == Some(old(ring).history()[*old(local_tail) as int])
                &&& *final(local_tail) == *old(local_tail) + 1
            },
            *old(local_tail) < old(ring).oldest() && old(ring).unread(old(ring).head() - 1) ==> {
                &&& r == Some(old(ring).history()[old(ring).head() - 1])
                &&& *final(local_tail) == old(ring).head()
            },
    {
        ring.inner.pop(local_tail)
    }
}

/// The lossy local-tail ring with its slots meant for separate cache lines; the
/// protocol is that of [`MPSCLocalTailLossy`].
pub struct MPSCLocalTailLossyPadded<T> {
    pub inner: SkippingRing<T>,
}

/// The producer-side handle of [`MPSCLocalTailLossyPadded`].
pub struct MPSCLocalTailLossyPaddedWriter;

/// The consumer-side handle of [`MPSCLocalTailLossyPadded`].
pub struct MPSCLocalTailLossyPaddedReader;

impl<T> MPSCLocalTailLossyPadded<T> {
    pub open spec fn wf(&self) -> bool {
        self.inner.wf()
    }

    /// Every payload written so far, in order.
    pub open spec fn history(&self) -> Seq<T> {
        self.inner.history@
    }

    pub open spec fn head(&self) -> int {
        self.inner.head as int
    }

    pub open spec fn capacity(&self) -> nat {
        self.inner.ring_size as nat
    }

    /// The oldest cursor whose payload can still be in the ring.
    pub open spec fn oldest(&self) -> int {
        self.inner.oldest()
    }

    /// Whether the payload of cursor `c` still waits in its slot.
    pub open spec fn unread(&self, c: int) -> bool {
        self.inner.unread(c)
    }

    /// The sequence counter of the slot of cursor `c`.
    pub open spec fn counter_at(&self, c: int) -> int {
        self.inner.slot_at(c).seq as int
    }

    pub open spec fn has_room(&self) -> bool {
        self.inner.has_room()
    }

    /// An empty ring of `ring_size` slots, with its two handles.
    pub fn new(ring_size: usize) -> (r: (Self, MPSCLocalTailLossyPaddedWriter, MPSCLocalTailLossyPaddedReader))
        requires
            0 < ring_size < usize::MAX,
        ensures
            r.0.wf(),
            r.0.head() == 0,
            r.0.history() == Seq::<T>::empty(),
            r.0.capacity() == ring_size,
    {
        (MPSCLocalTailLossyPadded { inner: SkippingRing::new(ring_size) }, MPSCLocalTailLossyPaddedWriter, MPSCLocalTailLossyPaddedReader)
    }
}

impl MPSCLocalTailLossyPaddedWriter {
    /// Claims the head slot once its previous payload has been read (its
    /// counter equals `head`), writes `item` and commits it; hands `item`
    /// back while the slot still holds an unread payload.
    pub fn push<T>(&self, ring: &mut MPSCLocalTailLossyPadded<T>, producer_id: usize, item: T) -> (r: Result<(), T>)
        requires
            old(ring).wf(),
            old(ring).has_room(),
        ensures
            final(ring).wf(),
            final(ring).capacity() == old(ring).capacity(),
            old(ring).head() >= old(ring).capacity() && old(ring).unread(
                old(ring).head() - old(ring).capacity(),
            ) ==> r == Err::<(), T>(item) && *final(ring) == *old(ring),
            !(old(ring).head() >= old(ring).capacity() && old(ring).unread(
                old(ring).head() - old(ring).capacity(),
            )) ==> {
                &&& r is Ok
                &&& final(ring).head() == old(ring).head() + 1
                &&& final(ring).history() == old(ring).history().push(item)
                &&& final(ring).unread(old(ring).head())
                &&& forall|c: int| #[trigger] old(ring).unread(c) ==> final(ring).unread(c)
            },
    {
        ring.inner.push_gated(item)
    }
}

impl MPSCLocalTailLossyPaddedReader {
    /// One read attempt at `*local_tail`: takes the payload there if it is
    /// committed and unread; after being lapped, skips to the most recent
    /// payload, `head - 1`, and takes it.
    pub fn pop<T>(&self, ring: &mut MPSCLocalTailLossyPadded<T>, local_tail: &mut usize) -> (r: Option<T>)
        requires
            old(ring).wf(),
        ensures
            final(ring).wf(),
            final(ring).head() == old(ring).head(),
            final(ring).capacity() == old(ring).capacity(),
            final(ring).history() == old(ring).history(),
            r is Some ==> {
                &&& *old(local_tail) < *final(local_tail) <= old(ring).head()
                &&& r == Some(old(ring).history()[*final(local_tail) - 1])
            },
            *old(local_tail) >= old(ring).head() ==> r is None && *final(local_tail)
                == *old(local_tail) && *final(ring) == *old(ring),
            forall|c: int|
                #[trigger] old(ring).unread(c) && c != *final(local_tail) - 1 ==> final(ring).unread(c),
            old(ring).counter_at(*old(local_tail) as int) <= *old(local_tail) ==> r is None
                && *final(local_tail) == *old(local_tail) && *final(ring) == *old(ring),
            old(ring).unread(*old(local_tail) as int) ==> {
                &&& r == Some(old(ring).history()[*old(local_tail) as int])
                &&& *final(local_tail) == *old(local_tail) + 1
            },
            *old(local_tail) < old(ring).oldest() && old(ring).unread(old(ring).head() - 1) ==> {
                &&& r == Some(old(ring).history()[old(ring).head() - 1])
                &&& *final(local_tail) == old(ring).head()
            },
    {
        ring.inner.pop(local_tail)
    }
}

} // verus!
