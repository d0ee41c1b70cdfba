//! The dual-index ring: a `head` and a `tail` cursor and no per-slot state.
//! A push waits while `head - tail == R`, a pop while `tail == head`.
use vstd::prelude::*;
use crate::rings::cursor::{slot_of, lemma_window_distinct, lemma_slot_in_range};

verus! {

pub struct DualIndexFifo<T> {
    pub head: usize,
    pub tail: usize,
    pub ring_size: usize,
    pub ring: Vec<Option<T>>,
    /// Every payload ever pushed, in cursor order.
    pub history: Ghost<Seq<T>>,
}

impl<T> DualIndexFifo<T> {
    pub open spec fn cell_at(&self, c: int) -> Option<T> {
        self.ring@[slot_of(c, self.ring_size as int)]
    }

    pub open spec fn wf(&self) -> bool {
        &&& self.ring_size > 0
        &&& self.ring@.len() == self.ring_size
        &&& self.tail <= self.head <= self.tail + self.ring_size
        &&& forall|c: int| self.tail <= c < self.head ==> #[trigger] self.cell_at(c) == Some(self.history@[c])
        &&& self.history@.len() == self.head
    }

    /// The payloads taken so far, in the order they were taken.
    pub open spec fn delivered(&self) -> Seq<T> {
        self.history@.subrange(0, self.tail as int)
    }

    /// The payloads waiting to be read, oldest first.
    pub open spec fn view(&self) -> Seq<T> {
        Seq::new((self.head - self.tail) as nat, |i: int| self.cell_at(self.tail + i)->0)
    }

    pub open spec fn len(&self) -> nat {
        (self.head - self.tail) as nat
    }

    pub open spec fn has_room(&self) -> bool {
        self.head < usize::MAX
    }

    pub fn new(ring_size: usize) -> (r: Self)
        requires
            ring_size > 0,
        ensures
            r.wf(),
            r.head == 0,
            r.tail == 0,
            r.ring_size == ring_size,
            r.view() == Seq::<T>::empty(),
            r.history@ == Seq::<T>::empty(),
    {
        let mut ring: Vec<Option<T>> = Vec::new();
        let mut i: usize = 0;
        while i < ring_size
            invariant
                i <= ring_size,
                ring@.len() == i,
            decreases ring_size - i,
        {
            ring.push(None);
            i = i + 1;
        }
        let r = DualIndexFifo { head: 0, tail: 0, ring_size, ring, history: Ghost(Seq::empty()) };
        assert(r.view() =~= Seq::<T>::empty());
        r
    }

    /// Writes `item` at `head` unless the ring is full; hands it back then.
    pub fn push(&mut self, item: T) -> (r: Result<(), T>)
        requires
            old(self).wf(),
            old(self).has_room(),
        ensures
            final(self).wf(),
            final(self).ring_size == old(self).ring_size,
            final(self).tail == old(self).tail,
            old(self).len() < old(self).ring_size ==> {
                &&& r is Ok
                &&& final(self).view() == old(self).view().push(item)
                &&& final(self).head == old(self).head + 1
                &&& final(self).history@ == old(self).history@.push(item)
            },
            old(self).len() == old(self).ring_size ==> {
                &&& r == Err::<(), T>(item)
                &&& *final(self) == *old(self)
            },
    {
        let head = self.head;
        if head - self.tail >= self.ring_size {
            return Err(item);
        }
        let idx = head % self.ring_size;
        proof {
            lemma_slot_in_range(head as int, self.ring_size as int);
        }
        let ghost pre = *self;
        self.ring.set(idx, Some(item));
        self.head = head + 1;
        self.history = Ghost(self.history@.push(item));
        proof {
            assert forall|c: int| self.tail <= c < self.head implies #[trigger] self.cell_at(c)
                == Some(self.history@[c]) by {
                if c != head {
                    lemma_window_distinct(c, head as int, self.ring_size as int);
                    assert(self.cell_at(c) == pre.cell_at(c));
                }
            }
            assert forall|i: int| 0 <= i < pre.len() implies self.view()[i] == pre.view()[i] by {
                lemma_window_distinct(self.tail + i, head as int, self.ring_size as int);
            }
            assert(self.view() =~= pre.view().push(item));
        }
        Ok(())
    }

    /// Takes the payload at `tail` unless the ring is empty.
    pub fn pop(&mut self) -> (r: Option<T>)
        requires
            old(self).wf(),
        ensures
            final(self).wf(),
            final(self).ring_size == old(self).ring_size,
            final(self).head == old(self).head,
            final(self).history == old(self).history,
            old(self).len() > 0 ==> {
                &&& r == Some(old(self).view()[0])
                &&& final(self).view() == old(self).view().drop_first()
                &&& final(self).tail == old(self).tail + 1
                &&& final(self).delivered() == old(self).delivered().push(old(self).view()[0])
            },
            old(self).len() == 0 ==> r is None && *final(self) == *old(self),
    {
        let tail = self.tail;
        if tail >= self.head {
            return None;
        }
        let idx = tail % self.ring_size;
        proof {
            lemma_slot_in_range(tail as int, self.ring_size as int);
            assert(self.cell_at(tail as int) is Some);
        }
        let ghost pre = *self;
        let mut cell: Option<T> = None;
        self.ring.set_and_swap(idx, &mut cell);
        self.tail = tail + 1;
        proof {
            assert forall|c: int| self.tail <= c < self.head implies #[trigger] self.cell_at(c)
                == Some(self.history@[c]) by {
                lemma_window_distinct(tail as int, c, self.ring_size as int);
                assert(self.cell_at(c) == pre.cell_at(c));
            }
            assert forall|i: int| 0 <= i < self.len() implies self.view()[i] == pre.view().drop_first()[i] by {
                lemma_window_distinct(tail as int, self.tail + i, self.ring_size as int);
                assert(self.tail + i == pre.tail + (i + 1));
            }
            assert(self.view() =~= pre.view().drop_first());
            assert(self.delivered() =~= pre.delivered().push(pre.view()[0]));
        }
        cell
    }
}

} // verus!
