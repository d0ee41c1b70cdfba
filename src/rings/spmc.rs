//! Single-producer, multi-consumer rings.
use vstd::prelude::*;
use crate::rings::dual::DualIndexFifo;
use crate::rings::broadcast::BroadcastRing;
use crate::rings::overwrite::OverwriteRing;

verus! {

/// Single producer, many consumers sharing one `tail`: each payload goes to
/// exactly one consumer.
pub struct SPMCLoadBalancerCopy<T> {
    pub inner: DualIndexFifo<T>,
}

/// The producer-side handle of [`SPMCLoadBalancerCopy`].
pub struct SPMCLoadBalancerCopyWriter;

/// The consumer-side handle of [`SPMCLoadBalancerCopy`].
pub struct SPMCLoadBalancerCopyReader;

impl<T> SPMCLoadBalancerCopy<T> {
    pub open spec fn wf(&self) -> bool {
        self.inner.wf()
    }

    /// The payloads waiting to be read, oldest first.
    pub open spec fn view(&self) -> Seq<T> {
        self.inner.view()
    }

    /// Every payload pushed so far, in order.
    pub open spec fn history(&self) -> Seq<T> {
        self.inner.history@
    }

    /// The payloads taken so far, by any consumer, in the order taken.
    pub open spec fn delivered(&self) -> Seq<T> {
        self.inner.delivered()
    }

    pub open spec fn capacity(&self) -> nat {
        self.inner.ring_size as nat
    }

    pub open spec fn has_room(&self) -> bool {
        self.inner.has_room()
    }

    /// An empty ring of `ring_size` slots, with its two handles.
    pub fn new(ring_size: usize) -> (r: (Self, SPMCLoadBalancerCopyWriter, SPMCLoadBalancerCopyReader))
        requires
            0 < ring_size < usize::MAX,
        ensures
            r.0.wf(),
            r.0.view() == Seq::<T>::empty(),
            r.0.history() == Seq::<T>::empty(),
            r.0.capacity() == ring_size,
            r.0.has_room(),
    {
        (SPMCLoadBalancerCopy { inner: DualIndexFifo::new(ring_size) }, SPMCLoadBalancerCopyWriter, SPMCLoadBalancerCopyReader)
    }
}

impl SPMCLoadBalancerCopyWriter {
    /// Appends `item` unless the ring holds `capacity` payloads; hands it
    /// back then, for the caller to retry.
    pub fn push<T>(&self, ring: &mut SPMCLoadBalancerCopy<T>, producer_id: usize, item: T) -> (r: Result<(), T>)
        requires
            old(ring).wf(),
            old(ring).has_room(),
        ensures
            final(ring).wf(),
            final(ring).capacity() == old(ring).capacity(),
            old(ring).view().len() < old(ring).capacity() ==> r is Ok && final(ring).view()
                == old(ring).view().push(item) && final(ring).history() == old(ring).history().push(item),
            old(ring).view().len() == old(ring).capacity() ==> r == Err::<(), T>(item)
                && final(ring).view() == old(ring).view() && final(ring).history() == old(ring).history(),
            final(ring).has_room() || r is Ok,
    {
        ring.inner.push(item)
    }
}

impl SPMCLoadBalancerCopyReader {
    /// Takes the oldest payload, if any; the tail is shared, so
    /// `local_tail` is left as it is.
    pub fn pop<T>(&self, ring: &mut SPMCLoadBalancerCopy<T>, local_tail: &mut usize) -> (r: Option<T>)
        requires
            old(ring).wf(),
        ensures
            final(ring).wf(),
            final(ring).capacity() == old(ring).capacity(),
            *final(local_tail) == *old(local_tail),
            final(ring).history() == old(ring).history(),
            old(ring).view().len() > 0 ==> r == Some(old(ring).view()[0]) && final(ring).view()
                == old(ring).view().drop_first() && final(ring).delivered() == old(ring).delivered().push(
                r->0,
            ),
            old(ring).view().len() == 0 ==> r is None && final(ring).view() == old(ring).view(),
            old(ring).has_room() ==> final(ring).has_room(),
    {
        ring.inner.pop()
    }
}

/// Single producer, many consumers, each with its own registered tail: every
/// consumer sees every payload written after it joined.
pub struct SPMCBroadcaster<T> {
    pub inner: BroadcastRing<T>,
}

/// The producer-side handle of [`SPMCBroadcaster`].
pub struct SPMCBroadcasterWriter;

/// A registered consumer of [`SPMCBroadcaster`]: `id` names its tail in the registry.
pub struct SPMCBroadcasterReader {
    pub id: usize,
}

impl<T: Copy> SPMCBroadcaster<T> {
    pub open spec fn wf(&self) -> bool {
        self.inner.wf()
    }

    /// Every payload written so far, in order.
    pub open spec fn history(&self) -> Seq<T> {
        self.inner.history@
    }

    pub open spec fn head(&self) -> int {
        self.inner.head as int
    }

    pub open spec fn capacity(&self) -> nat {
        self.inner.ring_size as nat
    }

    pub open spec fn registered(&self, id: int) -> bool {
        self.inner.active(id)
    }

    pub open spec fn tail_of(&self, id: int) -> int {
        self.inner.tail_of(id)
    }

    /// Whether some registered reader is a full lap behind the writer.
    pub open spec fn blocked(&self) -> bool {
        self.inner.blocked()
    }

    /// The head at the time reader `id` joined.
    pub open spec fn joined_at(&self, id: int) -> int {
        self.inner.joined@[id]
    }

    /// The payloads reader `id` has taken, in order.
    pub open spec fn received_by(&self, id: int) -> Seq<T> {
        self.inner.received@[id]
    }

    /// An empty ring of `ring_size` slots, its writer, and one registered
    /// reader.
    pub fn new(ring_size: usize) -> (r: (Self, SPMCBroadcasterWriter, SPMCBroadcasterReader))
        requires
            ring_size > 0,
        ensures
            r.0.wf(),
            r.0.head() == 0,
            r.0.history() == Seq::<T>::empty(),
            r.0.capacity() == ring_size,
            r.0.registered(r.2.id as int),
            r.0.tail_of(r.2.id as int) == 0,
            r.0.joined_at(r.2.id as int) == 0,
            r.0.received_by(r.2.id as int) == Seq::<T>::empty(),
    {
        let mut inner = BroadcastRing::new(ring_size);
        let id = inner.join();
        (SPMCBroadcaster { inner }, SPMCBroadcasterWriter, SPMCBroadcasterReader { id })
    }
}

impl SPMCBroadcasterWriter {
    /// Writes `item` at the head unless a registered reader is a full lap
    /// behind; hands it back then.
    pub fn push<T: Copy>(&self, ring: &mut SPMCBroadcaster<T>, producer_id: usize, item: T) -> (r: Result<(), T>)
        requires
            old(ring).wf(),
            old(ring).head() < usize::MAX,
        ensures
            final(ring).wf(),
            final(ring).capacity() == old(ring).capacity(),
            forall|id: int| #[trigger] final(ring).registered(id) == old(ring).registered(id),
            forall|id: int| #[trigger] final(ring).tail_of(id) == old(ring).tail_of(id),
            !old(ring).blocked() ==> {
                &&& r is Ok
                &&& final(ring).head() == old(ring).head() + 1
                &&& final(ring).history() == old(ring).history().push(item)
            },
            old(ring).blocked() ==> r == Err::<(), T>(item) && *final(ring) == *old(ring),
    {
        ring.inner.push(item)
    }
}

impl SPMCBroadcasterReader {
    /// Registers another reader, whose tail starts at the current head.
    pub fn clone_reader<T: Copy>(&self, ring: &mut SPMCBroadcaster<T>) -> (r: SPMCBroadcasterReader)
        requires
            old(ring).wf(),
        ensures
            final(ring).wf(),
            final(ring).head() == old(ring).head(),
            final(ring).history() == old(ring).history(),
            final(ring).capacity() == old(ring).capacity(),
            final(ring).registered(r.id as int),
            final(ring).tail_of(r.id as int) == old(ring).head(),
            final(ring).joined_at(r.id as int) == old(ring).head(),
            final(ring).received_by(r.id as int) == Seq::<T>::empty(),
            !old(ring).registered(r.id as int),
            forall|id: int| id != r.id ==> #[trigger] final(ring).registered(id) == old(ring).registered(id),
            forall|id: int| id != r.id && old(ring).registered(id) ==> #[trigger] final(ring).tail_of(id)
                == old(ring).tail_of(id),
    {
        let id = ring.inner.join();
        proof {
            assert forall|j: int| j != id implies #[trigger] ring.registered(j) == old(ring).registered(j)
                && (old(ring).registered(j) ==> ring.tail_of(j) == old(ring).tail_of(j)) by {
                if 0 <= j < old(ring).inner.tails@.len() {
                    assert(ring.inner.tails@[j] == old(ring).inner.tails@[j]);
                }
            }
        }
        SPMCBroadcasterReader { id }
    }

    /// Deregisters this reader: the writer stops waiting for it.
    pub fn leave<T: Copy>(self, ring: &mut SPMCBroadcaster<T>)
        requires
            old(ring).wf(),
            old(ring).registered(self.id as int),
        ensures
            final(ring).wf(),
            final(ring).head() == old(ring).head(),
            final(ring).history() == old(ring).history(),
            final(ring).capacity() == old(ring).capacity(),
            !final(ring).registered(self.id as int),
            forall|id: int| id != self.id ==> #[trigger] final(ring).registered(id) == old(ring).registered(id),
            forall|id: int| id != self.id && old(ring).registered(id) ==> #[trigger] final(ring).tail_of(id)
                == old(ring).tail_of(id),
    {
        ring.inner.leave(self.id);
        proof {
            assert forall|id: int| id != self.id implies #[trigger] ring.registered(id) == old(ring).registered(id)
                && (old(ring).registered(id) ==> ring.tail_of(id) == old(ring).tail_of(id)) by {
                if 0 <= id < ring.inner.tails@.len() {
                    assert(ring.inner.tails@[id] == old(ring).inner.tails@[id]);
                }
            }
        }
    }

    /// Copies the next payload for this reader, if one was written; the
    /// reader's new tail is mirrored into `local_tail`.
    pub fn pop<T: Copy>(&self, ring: &mut SPMCBroadcaster<T>, local_tail: &mut usize) -> (r: Option<T>)
        requires
            old(ring).wf(),
            old(ring).registered(self.id as int),
        ensures
            final(ring).wf(),
            final(ring).head() == old(ring).head(),
            final(ring).history() == old(ring).history(),
            final(ring).capacity() == old(ring).capacity(),
            final(ring).registered(self.id as int),
            forall|id: int| id != self.id ==> #[trigger] final(ring).registered(id) == old(ring).registered(id),
            forall|id: int| id != self.id && old(ring).registered(id) ==> #[trigger] final(ring).tail_of(id)
                == old(ring).tail_of(id),
            *final(local_tail) == final(ring).tail_of(self.id as int),
            final(ring).joined_at(self.id as int) == old(ring).joined_at(self.id as int),
            old(ring).tail_of(self.id as int) < old(ring).head() ==> {
                &&& r == Some(old(ring).history()[old(ring).tail_of(self.id as int)])
                &&& final(ring).tail_of(self.id as int) == old(ring).tail_of(self.id as int) + 1
                &&& final(ring).received_by(self.id as int) == old(ring).received_by(self.id as int).push(
                    r->0,
                )
            },
            old(ring).tail_of(self.id as int) == old(ring).head() ==> r is None
                && final(ring).tail_of(self.id as int) == old(ring).tail_of(self.id as int),
    {
        let r = ring.inner.pop(self.id);
        proof {
            assert forall|id: int| id != self.id implies #[trigger] ring.registered(id) == old(ring).registered(id)
                && (old(ring).registered(id) ==> ring.tail_of(id) == old(ring).tail_of(id)) by {
                if 0 <= id < ring.inner.tails@.len() {
                    assert(ring.inner.tails@[id] == old(ring).inner.tails@[id]);
                }
            }
        }
        *local_tail = match ring.inner.tails[self.id] {
            Some(t) => t,
            None => *local_tail,
        };
        r
    }
}

/// The broadcaster with its head and every tail meant for separate cache lines;
/// the protocol is that of [`SPMCBroadcaster`].
pub struct SPMCBroadcasterPadded<T> {
    pub inner: BroadcastRing<T>,
}

/// The producer-side handle of [`SPMCBroadcasterPadded`].
pub struct SPMCBroadcasterPaddedWriter;

/// A registered consumer of [`SPMCBroadcasterPadded`]: `id` names its tail in the registry.
pub struct SPMCBroadcasterPaddedReader {
    pub id: usize,
}

impl<T: Copy> SPMCBroadcasterPadded<T> {
    pub open spec fn wf(&self) -> bool {
        self.inner.wf()
    }

    /// Every payload written so far, in order.
    pub open spec fn history(&self) -> Seq<T> {
        self.inner.history@
    }

    pub open spec fn head(&self) -> int {
        self.inner.head as int
    }

    pub open spec fn capacity(&self) -> nat {
        self.inner.ring_size as nat
    }

    pub open spec fn registered(&self, id: int) -> bool {
        self.inner.active(id)
    }

    pub open spec fn tail_of(&self, id: int) -> int {
        self.inner.tail_of(id)
    }

    /// Whether some registered reader is a full lap behind the writer.
    pub open spec fn blocked(&self) -> bool {
        self.inner.blocked()
    }

    /// The head at the time reader `id` joined.
    pub open spec fn joined_at(&self, id: int) -> int {
        self.inner.joined@[id]
    }

    /// The payloads reader `id` has taken, in order.
    pub open spec fn received_by(&self, id: int) -> Seq<T> {
        self.inner.received@[id]
    }

    /// An empty ring of `ring_size` slots, its writer, and one registered
    /// reader.
    pub fn new(ring_size: usize) -> (r: (Self, SPMCBroadcasterPaddedWriter, SPMCBroadcasterPaddedReader))
        requires
            ring_size > 0,
        ensures
            r.0.wf(),
            r.0.head() == 0,
            r.0.history() == Seq::<T>::empty(),
            r.0.capacity() == ring_size,
            r.0.registered(r.2.id as int),
            r.0.tail_of(r.2.id as int) == 0,
            r.0.joined_at(r.2.id as int) == 0,
            r.0.received_by(r.2.id as int) == Seq::<T>::empty(),
    {
        let mut inner = BroadcastRing::new(ring_size);
        let id = inner.join();
        (SPMCBroadcasterPadded { inner }, SPMCBroadcasterPaddedWriter, SPMCBroadcasterPaddedReader { id })
    }
}

impl SPMCBroadcasterPaddedWriter {
    /// Writes `item` at the head unless a registered reader is a full lap
    /// behind; hands it back then.
    pub fn push<T: Copy>(&self, ring: &mut SPMCBroadcasterPadded<T>, producer_id: usize, item: T) -> (r: Result<(), T>)
        requires
            old(ring).wf(),
            old(ring).head() < usize::MAX,
        ensures
            final(ring).wf(),
            final(ring).capacity() == old(ring).capacity(),
            forall|id: int| #[trigger] final(ring).registered(id) == old(ring).registered(id),
            forall|id: int| #[trigger] final(ring).tail_of(id) == old(ring).tail_of(id),
            !old(ring).blocked() ==> {
                &&& r is Ok
                &&& final(ring).head() == old(ring).head() + 1
                &&& final(ring).history() == old(ring).history().push(item)
            },
            old(ring).blocked() ==> r == Err::<(), T>(item) && *final(ring) == *old(ring),
    {
        ring.inner.push(item)
    }
}

impl SPMCBroadcasterPaddedReader {
    /// Registers another reader, whose tail starts at the current head.
    pub fn clone_reader<T: Copy>(&self, ring: &mut SPMCBroadcasterPadded<T>) -> (r: SPMCBroadcasterPaddedReader)
        requires
            old(ring).wf(),
        ensures
            final(ring).wf(),
            final(ring).head() == old(ring).head(),
            final(ring).history() == old(ring).history(),
            final(ring).capacity() == old(ring).capacity(),
            final(ring).registered(r.id as int),
            final(ring).tail_of(r.id as int) == old(ring).head(),
            final(ring).joined_at(r.id as int) == old(ring).head(),
            final(ring).received_by(r.id as int) == Seq::<T>::empty(),
            !old(ring).registered(r.id as int),
            forall|id: int| id != r.id ==> #[trigger] final(ring).registered(id) == old(ring).registered(id),
            forall|id: int| id != r.id && old(ring).registered(id) ==> #[trigger] final(ring).tail_of(id)
                == old(ring).tail_of(id),
    {
        let id = ring.inner.join();
        proof {
            assert forall|j: int| j != id implies #[trigger] ring.registered(j) == old(ring).registered(j)
                && (old(ring).registered(j) ==> ring.tail_of(j) == old(ring).tail_of(j)) by {
                if 0 <= j < old(ring).inner.tails@.len() {
                    assert(ring.inner.tails@[j] == old(ring).inner.tails@[j]);
                }
            }
        }
        SPMCBroadcasterPaddedReader { id }
    }

    /// Deregisters this reader: the writer stops waiting for it.
    pub fn leave<T: Copy>(self, ring: &mut SPMCBroadcasterPadded<T>)
        requires
            old(ring).wf(),
            old(ring).registered(self.id as int),
        ensures
            final(ring).wf(),
            final(ring).head() == old(ring).head(),
            final(ring).history() == old(ring).history(),
            final(ring).capacity() == old(ring).capacity(),
            !final(ring).registered(self.id as int),
            forall|id: int| id != self.id ==> #[trigger] final(ring).registered(id) == old(ring).registered(id),
            forall|id: int| id != self.id && old(ring).registered(id) ==> #[trigger] final(ring).tail_of(id)
                == old(ring).tail_of(id),
    {
        ring.inner.leave(self.id);
        proof {
            assert forall|id: int| id != self.id implies #[trigger] ring.registered(id) == old(ring).registered(id)
                && (old(ring).registered(id) ==> ring.tail_of(id) == old(ring).tail_of(id)) by {
                if 0 <= id < ring.inner.tails@.len() {
                    assert(ring.inner.tails@[id] == old(ring).inner.tails@[id]);
                }
            }
        }
    }

    /// Copies the next payload for this reader, if one was written; the
    /// reader's new tail is mirrored into `local_tail`.
    pub fn pop<T: Copy>(&self, ring: &mut SPMCBroadcasterPadded<T>, local_tail: &mut usize) -> (r: Option<T>)
        requires
            old(ring).wf(),
            old(ring).registered(self.id as int),
        ensures
            final(ring).wf(),
            final(ring).head() == old(ring).head(),
            final(ring).history() == old(ring).history(),
            final(ring).capacity() == old(ring).capacity(),
            final(ring).registered(self.id as int),
            forall|id: int| id != self.id ==> #[trigger] final(ring).registered(id) == old(ring).registered(id),
            forall|id: int| id != self.id && old(ring).registered(id) ==> #[trigger] final(ring).tail_of(id)
                == old(ring).tail_of(id),
            *final(local_tail) == final(ring).tail_of(self.id as int),
            final(ring).joined_at(self.id as int) == old(ring).joined_at(self.id as int),
            old(ring).tail_of(self.id as int) < old(ring).head() ==> {
                &&& r == Some(old(ring).history()[old(ring).tail_of(self.id as int)])
                &&& final(ring).tail_of(self.id as int) == old(ring).tail_of(self.id as int) + 1
                &&& final(ring).received_by(self.id as int) == old(ring).received_by(self.id as int).push(
                    r->0,
                )
            },
            old(ring).tail_of(self.id as int) == old(ring).head() ==> r is None
                && final(ring).tail_of(self.id as int) == old(ring).tail_of(self.id as int),
    {
        let r = ring.inner.pop(self.id);
        proof {
            assert forall|id: int| id != self.id implies #[trigger] ring.registered(id) == old(ring).registered(id)
                && (old(ring).registered(id) ==> ring.tail_of(id) == old(ring).tail_of(id)) by {
                if 0 <= id < ring.inner.tails@.len() {
                    assert(ring.inner.tails@[id] == old(ring).inner.tails@[id]);
                }
            }
        }
        *local_tail = match ring.inner.tails[self.id] {
            Some(t) => t,
            None => *local_tail,
        };
        r
    }
}

/// Single producer, many consumers with private tails that the writer never
/// consults: it overwrites freely and a lapped reader copies whatever took the
/// slot.
pub struct SPMCBroadcasterUnsafeLocalTails<T> {
    pub inner: OverwriteRing<T>,
}

/// The producer-side handle of [`SPMCBroadcasterUnsafeLocalTails`].
pub struct SPMCBroadcasterUnsafeLocalTailsWriter;

/// The consumer-side handle of [`SPMCBroadcasterUnsafeLocalTails`].
pub struct SPMCBroadcasterUnsafeLocalTailsReader;

impl<T: Copy> SPMCBroadcasterUnsafeLocalTails<T> {
    pub open spec fn wf(&self) -> bool {
        self.inner.wf()
    }

    /// Every payload written so far, in order.
    pub open spec fn history(&self) -> Seq<T> {
        self.inner.history@
    }

    pub open spec fn head(&self) -> int {
        self.inner.head as int
    }

    pub open spec fn capacity(&self) -> nat {
        self.inner.ring_size as nat
    }

    /// The cursor whose payload a reader with tail `lt` copies next.
    pub open spec fn read_cursor(&self, lt: int) -> int {
        self.inner.read_cursor(lt)
    }

    /// An empty ring of `ring_size` slots, with its two handles.
    pub fn new(ring_size: usize) -> (r: (Self, SPMCBroadcasterUnsafeLocalTailsWriter, SPMCBroadcasterUnsafeLocalTailsReader))
        requires
            ring_size > 0,
        ensures
            r.0.wf(),
            r.0.head() == 0,
            r.0.history() == Seq::<T>::empty(),
            r.0.capacity() == ring_size,
    {
        (SPMCBroadcasterUnsafeLocalTails { inner: OverwriteRing::new(ring_size) }, SPMCBroadcasterUnsafeLocalTailsWriter, SPMCBroadcasterUnsafeLocalTailsReader)
    }
}

impl SPMCBroadcasterUnsafeLocalTailsWriter {
    /// Writes `item` at the head, over the slot's previous payload.
    pub fn push<T: Copy>(&self, ring: &mut SPMCBroadcasterUnsafeLocalTails<T>, producer_id: usize, item: T)
        requires
            old(ring).wf(),
            old(ring).head() < usize::MAX,
        ensures
            final(ring).wf(),
            final(ring).capacity() == old(ring).capacity(),
            final(ring).head() == old(ring).head() + 1,
            final(ring).history() == old(ring).history().push(item),
    {
        ring.inner.push(item)
    }
}

impl SPMCBroadcasterUnsafeLocalTailsReader {
    /// Copies the payload at `*local_tail` once the writer has passed it.
    /// A reader less than a lap behind gets exactly the payload its tail
    /// names; one that was lapped gets the later payload that took the slot.
    pub fn pop<T: Copy>(&self, ring: &SPMCBroadcasterUnsafeLocalTails<T>, local_tail: &mut usize) -> (r: Option<T>)
        requires
            ring.wf(),
        ensures
            *old(local_tail) < ring.head() ==> {
                &&& r == Some(ring.history()[ring.read_cursor(*old(local_tail) as int)])
                &&& *final(local_tail) == *old(local_tail) + 1
            },
            *old(local_tail) < ring.head() && *old(local_tail) + ring.capacity() >= ring.head()
                ==> ring.read_cursor(*old(local_tail) as int) == *old(local_tail),
            *old(local_tail) >= ring.head() ==> r is None && *final(local_tail) == *old(local_tail),
    {
        ring.inner.pop(local_tail)
    }
}

/// The unchecked broadcaster as one shared object that serves as both ends; the
/// protocol is that of [`SPMCBroadcasterUnsafeLocalTails`].
pub struct SPMCBroadcasterUnsafeLocalTailsOutsideArc<T> {
    pub inner: OverwriteRing<T>,
}

/// The producer-side handle of [`SPMCBroadcasterUnsafeLocalTailsOutsideArc`].
pub struct SPMCBroadcasterUnsafeLocalTailsOutsideArcWriter;

/// The consumer-side handle of [`SPMCBroadcasterUnsafeLocalTailsOutsideArc`].
pub struct SPMCBroadcasterUnsafeLocalTailsOutsideArcReader;

impl<T: Copy> SPMCBroadcasterUnsafeLocalTailsOutsideArc<T> {
    pub open spec fn wf(&self) -> bool {
        self.inner.wf()
    }

    /// Every payload written so far, in order.
    pub open spec fn history(&self) -> Seq<T> {
        self.inner.history@
    }

    pub open spec fn head(&self) -> int {
        self.inner.head as int
    }

    pub open spec fn capacity(&self) -> nat {
        self.inner.ring_size as nat
    }

    /// The cursor whose payload a reader with tail `lt` copies next.
    pub open spec fn read_cursor(&self, lt: int) -> int {
        self.inner.read_cursor(lt)
    }

    /// An empty ring of `ring_size` slots, with its two handles.
    pub fn new(ring_size: usize) -> (r: (Self, SPMCBroadcasterUnsafeLocalTailsOutsideArcWriter, SPMCBroadcasterUnsafeLocalTailsOutsideArcReader))
        requires
            ring_size > 0,
        ensures
            r.0.wf(),
            r.0.head() == 0,
            r.0.history() == Seq::<T>::empty(),
            r.0.capacity() == ring_size,
    {
        (SPMCBroadcasterUnsafeLocalTailsOutsideArc { inner: OverwriteRing::new(ring_size) }, SPMCBroadcasterUnsafeLocalTailsOutsideArcWriter, SPMCBroadcasterUnsafeLocalTailsOutsideArcReader)
    }
}

impl SPMCBroadcasterUnsafeLocalTailsOutsideArcWriter {
    /// Writes `item` at the head, over the slot's previous payload.
    pub fn push<T: Copy>(&self, ring: &mut SPMCBroadcasterUnsafeLocalTailsOutsideArc<T>, producer_id: usize, item: T)
        requires
            old(ring).wf(),
            old(ring).head() < usize::MAX,
        ensures
            final(ring).wf(),
            final(ring).capacity() == old(ring).capacity(),
            final(ring).head() == old(ring).head() + 1,
            final(ring).history() == old(ring).history().push(item),
    {
        ring.inner.push(item)
    }
}

impl SPMCBroadcasterUnsafeLocalTailsOutsideArcReader {
    /// Copies the payload at `*local_tail` once the writer has passed it.
    /// A reader less than a lap behind gets exactly the payload its tail
    /// names; one that was lapped gets the later payload that took the slot.
    pub fn pop<T: Copy>(&self, ring: &SPMCBroadcasterUnsafeLocalTailsOutsideArc<T>, local_tail: &mut usize) -> (r: Option<T>)
        requires
            ring.wf(),
        ensures
            *old(local_tail) < ring.head() ==> {
                &&& r == Some(ring.history()[ring.read_cursor(*old(local_tail) as int)])
                &&& *final(local_tail) == *old(local_tail) + 1
            },
            *old(local_tail) < ring.head() && *old(local_tail) + ring.capacity() >= ring.head()
                ==> ring.read_cursor(*old(local_tail) as int) == *old(local_tail),
            *old(local_tail) >= ring.head() ==> r is None && *final(local_tail) == *old(local_tail),
    {
        ring.inner.pop(local_tail)
    }
}

} // verus!
