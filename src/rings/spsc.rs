//! Single-producer, single-consumer rings.
use vstd::prelude::*;
use crate::rings::dual::DualIndexFifo;
use crate::rings::skipping::SkippingRing;
use crate::rings::overwrite::OverwriteRing;

verus! {

/// Single producer, single consumer: a `head` and a `tail` cursor and nothing
/// per slot. The baseline that loses nothing.
pub struct SPSCDualIndexFalseSharing<T> {
    pub inner: DualIndexFifo<T>,
}

/// The producer-side handle of [`SPSCDualIndexFalseSharing`].
pub struct SPSCDualIndexFalseSharingWriter;

/// The consumer-side handle of [`SPSCDualIndexFalseSharing`].
pub struct SPSCDualIndexFalseSharingReader;

impl<T> SPSCDualIndexFalseSharing<T> {
    pub open spec fn wf(&self) -> bool {
        self.inner.wf()
    }

    /// The payloads waiting to be read, oldest first.
    pub open spec fn view(&self) -> Seq<T> {
        self.inner.view()
    }

    /// Every payload pushed so far, in order.
    pub open spec fn history(&self) -> Seq<T> {
        self.inner.history@
    }

    /// The payloads taken so far, by any consumer, in the order taken.
    pub open spec fn delivered(&self) -> Seq<T> {
        self.inner.delivered()
    }

    pub open spec fn capacity(&self) -> nat {
        self.inner.ring_size as nat
    }

    pub open spec fn has_room(&self) -> bool {
        self.inner.has_room()
    }

    /// An empty ring of `ring_size` slots, with its two handles.
    pub fn new(ring_size: usize) -> (r: (Self, SPSCDualIndexFalseSharingWriter, SPSCDualIndexFalseSharingReader))
        requires
            0 < ring_size < usize::MAX,
        ensures
            r.0.wf(),
            r.0.view() == Seq::<T>::empty(),
            r.0.history() == Seq::<T>::empty(),
            r.0.capacity() == ring_size,
            r.0.has_room(),
    {
        (SPSCDualIndexFalseSharing { inner: DualIndexFifo::new(ring_size) }, SPSCDualIndexFalseSharingWriter, SPSCDualIndexFalseSharingReader)
    }
}

impl SPSCDualIndexFalseSharingWriter {
    /// Appends `item` unless the ring holds `capacity` payloads; hands it
    /// back then, for the caller to retry.
    pub fn push<T>(&self, ring: &mut SPSCDualIndexFalseSharing<T>, producer_id: usize, item: T) -> (r: Result<(), T>)
        requires
            old(ring).wf(),
            old(ring).has_room(),
        ensures
            final(ring).wf(),
            final(ring).capacity() == old(ring).capacity(),
            old(ring).view().len() < old(ring).capacity() ==> r is Ok && final(ring).view()
                == old(ring).view().push(item) && final(ring).history() == old(ring).history().push(item),
            old(ring).view().len() == old(ring).capacity() ==> r == Err::<(), T>(item)
                && final(ring).view() == old(ring).view() && final(ring).history() == old(ring).history(),
            final(ring).has_room() || r is Ok,
    {
        ring.inner.push(item)
    }
}

impl SPSCDualIndexFalseSharingReader {
    /// Takes the oldest payload, if any; the tail is shared, so
    /// `local_tail` is left as it is.
    pub fn pop<T>(&self, ring: &mut SPSCDualIndexFalseSharing<T>, local_tail: &mut usize) -> (r: Option<T>)
        requires
            old(ring).wf(),
        ensures
            final(ring).wf(),
            final(ring).capacity() == old(ring).capacity(),
            *final(local_tail) == *old(local_tail),
            final(ring).history() == old(ring).history(),
            old(ring).view().len() > 0 ==> r == Some(old(ring).view()[0]) && final(ring).view()
                == old(ring).view().drop_first() && final(ring).delivered() == old(ring).delivered().push(
                r->0,
            ),
            old(ring).view().len() == 0 ==> r is None && final(ring).view() == old(ring).view(),
            old(ring).has_room() ==> final(ring).has_room(),
    {
        ring.inner.pop()
    }
}

/// The dual-index ring with its two cursors meant for separate cache lines; the
/// protocol is that of [`SPSCDualIndexFalseSharing`].
pub struct SPSCDualIndexPadFalseSharing<T> {
    pub inner: DualIndexFifo<T>,
}

/// The producer-side handle of [`SPSCDualIndexPadFalseSharing`].
pub struct SPSCDualIndexPadFalseSharingWriter;

/// The consumer-side handle of [`SPSCDualIndexPadFalseSharing`].
pub struct SPSCDualIndexPadFalseSharingReader;

impl<T> SPSCDualIndexPadFalseSharing<T> {
    pub open spec fn wf(&self) -> bool {
        self.inner.wf()
    }

    /// The payloads waiting to be read, oldest first.
    pub open spec fn view(&self) -> Seq<T> {
        self.inner.view()
    }

    /// Every payload pushed so far, in order.
    pub open spec fn history(&self) -> Seq<T> {
        self.inner.history@
    }

    /// The payloads taken so far, by any consumer, in the order taken.
    pub open spec fn delivered(&self) -> Seq<T> {
        self.inner.delivered()
    }

    pub open spec fn capacity(&self) -> nat {
        self.inner.ring_size as nat
    }

    pub open spec fn has_room(&self) -> bool {
        self.inner.has_room()
    }

    /// An empty ring of `ring_size` slots, with its two handles.
    pub fn new(ring_size: usize) -> (r: (Self, SPSCDualIndexPadFalseSharingWriter, SPSCDualIndexPadFalseSharingReader))
        requires
            0 < ring_size < usize::MAX,
        ensures
            r.0.wf(),
            r.0.view() == Seq::<T>::empty(),
            r.0.history() == Seq::<T>::empty(),
            r.0.capacity() == ring_size,
            r.0.has_room(),
    {
        (SPSCDualIndexPadFalseSharing { inner: DualIndexFifo::new(ring_size) }, SPSCDualIndexPadFalseSharingWriter, SPSCDualIndexPadFalseSharingReader)
    }
}

impl SPSCDualIndexPadFalseSharingWriter {
    /// Appends `item` unless the ring holds `capacity` payloads; hands it
    /// back then, for the caller to retry.
    pub fn push<T>(&self, ring: &mut SPSCDualIndexPadFalseSharing<T>, producer_id: usize, item: T) -> (r: Result<(), T>)
        requires
            old(ring).wf(),
            old(ring).has_room(),
        ensures
            final(ring).wf(),
            final(ring).capacity() == old(ring).capacity(),
            old(ring).view().len() < old(ring).capacity() ==> r is Ok && final(ring).view()
                == old(ring).view().push(item) && final(ring).history() == old(ring).history().push(item),
            old(ring).view().len() == old(ring).capacity() ==> r == Err::<(), T>(item)
                && final(ring).view() == old(ring).view() && final(ring).history() == old(ring).history(),
            final(ring).has_room() || r is Ok,
    {
        ring.inner.push(item)
    }
}

impl SPSCDualIndexPadFalseSharingReader {
    /// Takes the oldest payload, if any; the tail is shared, so
    /// `local_tail` is left as it is.
    pub fn pop<T>(&self, ring: &mut SPSCDualIndexPadFalseSharing<T>, local_tail: &mut usize) -> (r: Option<T>)
        requires
            old(ring).wf(),
        ensures
            final(ring).wf(),
            final(ring).capacity() == old(ring).capacity(),
            *final(local_tail) == *old(local_tail),
            final(ring).history() == old(ring).history(),
            old(ring).view().len() > 0 ==> r == Some(old(ring).view()[0]) && final(ring).view()
                == old(ring).view().drop_first() && final(ring).delivered() == old(ring).delivered().push(
                r->0,
            ),
            old(ring).view().len() == 0 ==> r is None && final(ring).view() == old(ring).view(),
            old(ring).has_room() ==> final(ring).has_room(),
    {
        ring.inner.pop()
    }
}

/// Single producer, single consumer, per-slot counters: the writer never waits
/// and a lapped reader skips to the most recent payload, trading loss for
/// bounded latency.
pub struct SPSCSafeSkipping<T> {
    pub inner: SkippingRing<T>,
}

/// The producer-side handle of [`SPSCSafeSkipping`].
pub struct SPSCSafeSkippingWriter;

/// The consumer-side handle of [`SPSCSafeSkipping`].
pub struct SPSCSafeSkippingReader;

impl<T> SPSCSafeSkipping<T> {
    pub open spec fn wf(&self) -> bool {
        self.inner.wf()
    }

    /// Every payload written so far, in order.
    pub open spec fn history(&self) -> Seq<T> {
        self.inner.history@
    }

    pub open spec fn head(&self) -> int {
        self.inner.head as int
    }

    pub open spec fn capacity(&self) -> nat {
        self.inner.ring_size as nat
    }

    /// The oldest cursor whose payload can still be in the ring.
    pub open spec fn oldest(&self) -> int {
        self.inner.oldest()
    }

    /// Whether the payload of cursor `c` still waits in its slot.
    pub open spec fn unread(&self, c: int) -> bool {
        self.inner.unread(c)
    }

    /// The sequence counter of the slot of cursor `c`.
    pub open spec fn counter_at(&self, c: int) -> int {
        self.inner.slot_at(c).seq as int
    }

    pub open spec fn has_room(&self) -> bool {
        self.inner.has_room()
    }

    /// An empty ring of `ring_size` slots, with its two handles.
    pub fn new(ring_size: usize) -> (r: (Self, SPSCSafeSkippingWriter, SPSCSafeSkippingReader))
        requires
            0 < ring_size < usize::MAX,
        ensures
            r.0.wf(),
            r.0.head() == 0,
            r.0.history() == Seq::<T>::empty(),
            r.0.capacity() == ring_size,
    {
        (SPSCSafeSkipping { inner: SkippingRing::new(ring_size) }, SPSCSafeSkippingWriter, SPSCSafeSkippingReader)
    }
}

impl SPSCSafeSkippingWriter {
    /// Writes `item` at the head and commits it, whether or not the slot's
    /// previous payload was read.
    pub fn push<T>(&self, ring: &mut SPSCSafeSkipping<T>, producer_id: usize, item: T)
        requires
            old(ring).wf(),
            old(ring).has_room(),
        ensures
            final(ring).wf(),
            final(ring).capacity() == old(ring).capacity(),
            final(ring).head() == old(ring).head() + 1,
            final(ring).history() == old(ring).history().push(item),
            final(ring).unread(old(ring).head()),
            forall|c: int|
                #[trigger] old(ring).unread(c) && c != old(ring).head() - old(ring).capacity()
                    ==> final(ring).unread(c),
    {
        ring.inner.push(item)
    }
}

impl SPSCSafeSkippingReader {
    /// One read attempt at `*local_tail`: takes the payload there if it is
    /// committed and unread; after being lapped, skips to the most recent
    /// payload, `head - 1`, and takes it.
    pub fn pop<T>(&self, ring: &mut SPSCSafeSkipping<T>, local_tail: &mut usize) -> (r: Option<T>)
        requires
            old(ring).wf(),
        ensures
            final(ring).wf(),
            final(ring).head() == old(ring).head(),
            final(ring).capacity() == old(ring).capacity(),
            final(ring).history() == old(ring).history(),
            r is Some ==> {
                &&& *old(local_tail) < *final(local_tail) <= old(ring).head()
                &&& r == Some(old(ring).history()[*final(local_tail) - 1])
            },
            *old(local_tail) >= old(ring).head() ==> r is None && *final(local_tail)
                == *old(local_tail) && *final(ring) == *old(ring),
            forall|c: int|
                #[trigger] old(ring).unread(c) && c != *final(local_tail) - 1 ==> final(ring).unread(c),
            old(ring).counter_at(*old(local_tail) as int) <= *old(local_tail) ==> r is None
                && *final(local_tail) == *old(local_tail) && *final(ring) == *old(ring),
            old(ring).unread(*old(local_tail) as int) ==> {
                &&& r == Some(old(ring).history()[*old(local_tail) as int])
                &&& *final(local_tail) == *old(local_tail) + 1
            },
            *old(local_tail) < old(ring).oldest() && old(ring).unread(old(ring).head() - 1) ==> {
                &&& r == Some(old(ring).history()[old(ring).head() - 1])
                &&& *final(local_tail) == old(ring).head()
            },
    {
        ring.inner.pop(local_tail)
    }
}

/// The skipping ring with its slots held inline; the protocol is that of
/// [`SPSCSafeSkipping`].
pub struct SPSCSafeSkippingNoBoxPtr<T> {
    pub inner: SkippingRing<T>,
}

/// The producer-side handle of [`SPSCSafeSkippingNoBoxPtr`].
pub struct SPSCSafeSkippingNoBoxPtrWriter;

/// The consumer-side handle of [`SPSCSafeSkippingNoBoxPtr`].
pub struct SPSCSafeSkippingNoBoxPtrReader;

impl<T> SPSCSafeSkippingNoBoxPtr<T> {
    pub open spec fn wf(&self) -> bool {
        self.inner.wf()
    }

    /// Every payload written so far, in order.
    pub open spec fn history(&self) -> Seq<T> {
        self.inner.history@
    }

    pub open spec fn head(&self) -> int {
        self.inner.head as int
    }

    pub open spec fn capacity(&self) -> nat {
        self.inner.ring_size as nat
    }

    /// The oldest cursor whose payload can still be in the ring.
    pub open spec fn oldest(&self) -> int {
        self.inner.oldest()
    }

    /// Whether the payload of cursor `c` still waits in its slot.
    pub open spec fn unread(&self, c: int) -> bool {
        self.inner.unread(c)
    }

    /// The sequence counter of the slot of cursor `c`.
    pub open spec fn counter_at(&self, c: int) -> int {
        self.inner.slot_at(c).seq as int
    }

    pub open spec fn has_room(&self) -> bool {
        self.inner.has_room()
    }

    /// An empty ring of `ring_size` slots, with its two handles.
    pub fn new(ring_size: usize) -> (r: (Self, SPSCSafeSkippingNoBoxPtrWriter, SPSCSafeSkippingNoBoxPtrReader))
        requires
            0 < ring_size < usize::MAX,
        ensures
            r.0.wf(),
            r.0.head() == 0,
            r.0.history() == Seq::<T>::empty(),
            r.0.capacity() == ring_size,
    {
        (SPSCSafeSkippingNoBoxPtr { inner: SkippingRing::new(ring_size) }, SPSCSafeSkippingNoBoxPtrWriter, SPSCSafeSkippingNoBoxPtrReader)
    }
}

impl SPSCSafeSkippingNoBoxPtrWriter {
    /// Writes `item` at the head and commits it, whether or not the slot's
    /// previous payload was read.
    pub fn push<T>(&self, ring: &mut SPSCSafeSkippingNoBoxPtr<T>, producer_id: usize, item: T)
        requires
            old(ring).wf(),
            old(ring).has_room(),
        ensures
            final(ring).wf(),
            final(ring).capacity() == old(ring).capacity(),
            final(ring).head() == old(ring).head() + 1,
            final(ring).history() == old(ring).history().push(item),
            final(ring).unread(old(ring).head()),
            forall|c: int|
                #[trigger] old(ring).unread(c) && c != old(ring).head() - old(ring).capacity()
                    ==> final(ring).unread(c),
    {
        ring.inner.push(item)
    }
}

impl SPSCSafeSkippingNoBoxPtrReader {
    /// One read attempt at `*local_tail`: takes the payload there if it is
    /// committed and unread; after being lapped, skips to the most recent
    /// payload, `head - 1`, and takes it.
    pub fn pop<T>(&self, ring: &mut SPSCSafeSkippingNoBoxPtr<T>, local_tail: &mut usize) -> (r: Option<T>)
        requires
            old(ring).wf(),
        ensures
            final(ring).wf(),
            final(ring).head() == old(ring).head(),
            final(ring).capacity() == old(ring).capacity(),
            final(ring).history() == old(ring).history(),
            r is Some ==> {
                &&& *old(local_tail) < *final(local_tail) <= old(ring).head()
                &&& r == Some(old(ring).history()[*final(local_tail) - 1])
            },
            *old(local_tail) >= old(ring).head() ==> r is None && *final(local_tail)
                == *old(local_tail) && *final(ring) == *old(ring),
            forall|c: int|
                #[trigger] old(ring).unread(c) && c != *final(local_tail) - 1 ==> final(ring).unread(c),
            old(ring).counter_at(*old(local_tail) as int) <= *old(local_tail) ==> r is None
                && *final(local_tail) == *old(local_tail) && *final(ring) == *old(ring),
            old(ring).unread(*old(local_tail) as int) ==> {
                &&& r == Some(old(ring).history()[*old(local_tail) as int])
                &&& *final(local_tail) == *old(local_tail) + 1
            },
            *old(local_tail) < old(ring).oldest() && old(ring).unread(old(ring).head() - 1) ==> {
                &&& r == Some(old(ring).history()[old(ring).head() - 1])
                &&& *final(local_tail) == old(ring).head()
            },
    {
        ring.inner.pop(local_tail)
    }
}

/// The skipping ring as one shared object that serves as both ends; the
/// protocol is that of [`SPSCSafeSkipping`].
pub struct SPSCSafeSkippingOutsideArc<T> {
    pub inner: SkippingRing<T>,
}

/// The producer-side handle of [`SPSCSafeSkippingOutsideArc`].
pub struct SPSCSafeSkippingOutsideArcWriter;

/// The consumer-side handle of [`SPSCSafeSkippingOutsideArc`].
pub struct SPSCSafeSkippingOutsideArcReader;

impl<T> SPSCSafeSkippingOutsideArc<T> {
    pub open spec fn wf(&self) -> bool {
        self.inner.wf()
    }

    /// Every payload written so far, in order.
    pub open spec fn history(&self) -> Seq<T> {
        self.inner.history@
    }

    pub open spec fn head(&self) -> int {
        self.inner.head as int
    }

    pub open spec fn capacity(&self) -> nat {
        self.inner.ring_size as nat
    }

    /// The oldest cursor whose payload can still be in the ring.
    pub open spec fn oldest(&self) -> int {
        self.inner.oldest()
    }

    /// Whether the payload of cursor `c` still waits in its slot.
    pub open spec fn unread(&self, c: int) -> bool {
        self.inner.unread(c)
    }

    /// The sequence counter of the slot of cursor `c`.
    pub open spec fn counter_at(&self, c: int) -> int {
        self.inner.slot_at(c).seq as int
    }

    pub open spec fn has_room(&self) -> bool {
        self.inner.has_room()
    }

    /// An empty ring of `ring_size` slots, with its two handles.
    pub fn new(ring_size: usize) -> (r: (Self, SPSCSafeSkippingOutsideArcWriter, SPSCSafeSkippingOutsideArcReader))
        requires
            0 < ring_size < usize::MAX,
        ensures
            r.0.wf(),
            r.0.head() == 0,
            r.0.history() == Seq::<T>::empty(),
            r.0.capacity() == ring_size,
    {
        (SPSCSafeSkippingOutsideArc { inner: SkippingRing::new(ring_size) }, SPSCSafeSkippingOutsideArcWriter, SPSCSafeSkippingOutsideArcReader)
    }
}

impl SPSCSafeSkippingOutsideArcWriter {
    /// Writes `item` at the head and commits it, whether or not the slot's
    /// previous payload was read.
    pub fn push<T>(&self, ring: &mut SPSCSafeSkippingOutsideArc<T>, producer_id: usize, item: T)
        requires
            old(ring).wf(),
            old(ring).has_room(),
        ensures
            final(ring).wf(),
            final(ring).capacity() == old(ring).capacity(),
            final(ring).head() == old(ring).head() + 1,
            final(ring).history() == old(ring).history().push(item),
            final(ring).unread(old(ring).head()),
            forall|c: int|
                #[trigger] old(ring).unread(c) && c != old(ring).head() - old(ring).capacity()
                    ==> final(ring).unread(c),
    {
        ring.inner.push(item)
    }
}

impl SPSCSafeSkippingOutsideArcReader {
    /// One read attempt at `*local_tail`: takes the payload there if it is
    /// committed and unread; after being lapped, skips to the most recent
    /// payload, `head - 1`, and takes it.
    pub fn pop<T>(&self, ring: &mut SPSCSafeSkippingOutsideArc<T>, local_tail: &mut usize) -> (r: Option<T>)
        requires
            old(ring).wf(),
        ensures
            final(ring).wf(),
            final(ring).head() == old(ring).head(),
            final(ring).capacity() == old(ring).capacity(),
            final(ring).history() == old(ring).history(),
            r is Some ==> {
                &&& *old(local_tail) < *final(local_tail) <= old(ring).head()
                &&& r == Some(old(ring).history()[*final(local_tail) - 1])
            },
            *old(local_tail) >= old(ring).head() ==> r is None && *final(local_tail)
                == *old(local_tail) && *final(ring) == *old(ring),
            forall|c: int|
                #[trigger] old(ring).unread(c) && c != *final(local_tail) - 1 ==> final(ring).unread(c),
            old(ring).counter_at(*old(local_tail) as int) <= *old(local_tail) ==> r is None
                && *final(local_tail) == *old(local_tail) && *final(ring) == *old(ring),
            old(ring).unread(*old(local_tail) as int) ==> {
                &&& r == Some(old(ring).history()[*old(local_tail) as int])
                &&& *final(local_tail) == *old(local_tail) + 1
            },
            *old(local_tail) < old(ring).oldest() && old(ring).unread(old(ring).head() - 1) ==> {
                &&& r == Some(old(ring).history()[old(ring).head() - 1])
                &&& *final(local_tail) == old(ring).head()
            },
    {
        ring.inner.pop(local_tail)
    }
}

/// Single producer, single consumer, a lock per slot: the writer overwrites
/// under the slot lock and the reader copies from the slot at its private tail.
pub struct SPSCSlotLockLocalTailCopy<T> {
    pub inner: OverwriteRing<T>,
}

/// The producer-side handle of [`SPSCSlotLockLocalTailCopy`].
pub struct SPSCSlotLockLocalTailCopyWriter;

/// The consumer-side handle of [`SPSCSlotLockLocalTailCopy`].
pub struct SPSCSlotLockLocalTailCopyReader;

impl<T: Copy> SPSCSlotLockLocalTailCopy<T> {
    pub open spec fn wf(&self) -> bool {
        self.inner.wf()
    }

    /// Every payload written so far, in order.
    pub open spec fn history(&self) -> Seq<T> {
        self.inner.history@
    }

    pub open spec fn head(&self) -> int {
        self.inner.head as int
    }

    pub open spec fn capacity(&self) -> nat {
        self.inner.ring_size as nat
    }

    /// The cursor whose payload a reader with tail `lt` copies next.
    pub open spec fn read_cursor(&self, lt: int) -> int {
        self.inner.read_cursor(lt)
    }

    /// An empty ring of `ring_size` slots, with its two handles.
    pub fn new(ring_size: usize) -> (r: (Self, SPSCSlotLockLocalTailCopyWriter, SPSCSlotLockLocalTailCopyReader))
        requires
            ring_size > 0,
        ensures
            r.0.wf(),
            r.0.head() == 0,
            r.0.history() == Seq::<T>::empty(),
            r.0.capacity() == ring_size,
    {
        (SPSCSlotLockLocalTailCopy { inner: OverwriteRing::new(ring_size) }, SPSCSlotLockLocalTailCopyWriter, SPSCSlotLockLocalTailCopyReader)
    }
}

impl SPSCSlotLockLocalTailCopyWriter {
    /// Writes `item` at the head, over the slot's previous payload.
    pub fn push<T: Copy>(&self, ring: &mut SPSCSlotLockLocalTailCopy<T>, producer_id: usize, item: T)
        requires
            old(ring).wf(),
            old(ring).head() < usize::MAX,
        ensures
            final(ring).wf(),
            final(ring).capacity() == old(ring).capacity(),
            final(ring).head() == old(ring).head() + 1,
            final(ring).history() == old(ring).history().push(item),
    {
        ring.inner.push(item)
    }
}

impl SPSCSlotLockLocalTailCopyReader {
    /// Copies the payload at `*local_tail` once the writer has passed it.
    /// A reader less than a lap behind gets exactly the payload its tail
    /// names; one that was lapped gets the later payload that took the slot.
    pub fn pop<T: Copy>(&self, ring: &SPSCSlotLockLocalTailCopy<T>, local_tail: &mut usize) -> (r: Option<T>)
        requires
            ring.wf(),
        ensures
            *old(local_tail) < ring.head() ==> {
                &&& r == Some(ring.history()[ring.read_cursor(*old(local_tail) as int)])
                &&& *final(local_tail) == *old(local_tail) + 1
            },
            *old(local_tail) < ring.head() && *old(local_tail) + ring.capacity() >= ring.head()
                ==> ring.read_cursor(*old(local_tail) as int) == *old(local_tail),
            *old(local_tail) >= ring.head() ==> r is None && *final(local_tail) == *old(local_tail),
    {
        ring.inner.pop(local_tail)
    }
}

/// Single producer, single consumer, one lock around every push and pop: the
/// writer overwrites and the reader copies from its private tail.
pub struct SPSCFullLockLocalTailCopy<T> {
    pub inner: OverwriteRing<T>,
}

/// The producer-side handle of [`SPSCFullLockLocalTailCopy`].
pub struct SPSCFullLockLocalTailCopyWriter;

/// The consumer-side handle of [`SPSCFullLockLocalTailCopy`].
pub struct SPSCFullLockLocalTailCopyReader;

impl<T: Copy> SPSCFullLockLocalTailCopy<T> {
    pub open spec fn wf(&self) -> bool {
        self.inner.wf()
    }

    /// Every payload written so far, in order.
    pub open spec fn history(&self) -> Seq<T> {
        self.inner.history@
    }

    pub open spec fn head(&self) -> int {
        self.inner.head as int
    }

    pub open spec fn capacity(&self) -> nat {
        self.inner.ring_size as nat
    }

    /// The cursor whose payload a reader with tail `lt` copies next.
    pub open spec fn read_cursor(&self, lt: int) -> int {
        self.inner.read_cursor(lt)
    }

    /// An empty ring of `ring_size` slots, with its two handles.
    pub fn new(ring_size: usize) -> (r: (Self, SPSCFullLockLocalTailCopyWriter, SPSCFullLockLocalTailCopyReader))
        requires
            ring_size > 0,
        ensures
            r.0.wf(),
            r.0.head() == 0,
            r.0.history() == Seq::<T>::empty(),
            r.0.capacity() == ring_size,
    {
        (SPSCFullLockLocalTailCopy { inner: OverwriteRing::new(ring_size) }, SPSCFullLockLocalTailCopyWriter, SPSCFullLockLocalTailCopyReader)
    }
}

impl SPSCFullLockLocalTailCopyWriter {
    /// Writes `item` at the head, over the slot's previous payload.
    pub fn push<T: Copy>(&self, ring: &mut SPSCFullLockLocalTailCopy<T>, producer_id: usize, item: T)
        requires
            old(ring).wf(),
            old(ring).head() < usize::MAX,
        ensures
            final(ring).wf(),
            final(ring).capacity() == old(ring).capacity(),
            final(ring).head() == old(ring).head() + 1,
            final(ring).history() == old(ring).history().push(item),
    {
        ring.inner.push(item)
    }
}

impl SPSCFullLockLocalTailCopyReader {
    /// Copies the payload at `*local_tail` once the writer has passed it.
    /// A reader less than a lap behind gets exactly the payload its tail
    /// names; one that was lapped gets the later payload that took the slot.
    pub fn pop<T: Copy>(&self, ring: &SPSCFullLockLocalTailCopy<T>, local_tail: &mut usize) -> (r: Option<T>)
        requires
            ring.wf(),
        ensures
            *old(local_tail) < ring.head() ==> {
                &&& r == Some(ring.history()[ring.read_cursor(*old(local_tail) as int)])
                &&& *final(local_tail) == *old(local_tail) + 1
            },
            *old(local_tail) < ring.head() && *old(local_tail) + ring.capacity() >= ring.head()
                ==> ring.read_cursor(*old(local_tail) as int) == *old(local_tail),
            *old(local_tail) >= ring.head() ==> r is None && *final(local_tail) == *old(local_tail),
    {
        ring.inner.pop(local_tail)
    }
}

} // verus!
