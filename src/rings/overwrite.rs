//! The overwriting ring: the writer never waits; it stores at `head` and
//! moves on. Each reader keeps a private tail and copies the payload out, so a
//! reader that falls a full lap behind reads a later payload than the one its
//! tail names.
use vstd::prelude::*;
use crate::rings::slot::LockSlot;
use crate::rings::cursor::{
    slot_of, cursor_in_window, lemma_window_distinct, lemma_slot_in_range,
    lemma_cursor_in_window,
};

verus! {

pub struct OverwriteRing<T> {
    pub head: usize,
    pub ring_size: usize,
    pub ring: Vec<LockSlot<T>>,
    /// Every payload ever written, in cursor order.
    pub history: Ghost<Seq<T>>,
}

impl<T: Copy> OverwriteRing<T> {
    pub open spec fn cell_at(&self, c: int) -> Option<T> {
        self.ring@[slot_of(c, self.ring_size as int)].data
    }

    /// The oldest cursor whose payload can still be in the ring.
    pub open spec fn oldest(&self) -> int {
        if self.head >= self.ring_size { self.head - self.ring_size } else { 0 }
    }

    pub open spec fn wf(&self) -> bool {
        &&& self.ring_size > 0
        &&& self.ring@.len() == self.ring_size
        &&& self.history@.len() == self.head
        &&& forall|c: int|
            self.oldest() <= c < self.head ==> #[trigger] self.cell_at(c) == Some(self.history@[c])
    }

    /// The cursor whose payload a reader at `lt` copies: `lt` itself while it
    /// is less than a lap behind, else the cursor that took its slot last.
    pub open spec fn read_cursor(&self, lt: int) -> int {
        if lt >= self.oldest() {
            lt
        } else {
            cursor_in_window(self.oldest(), slot_of(lt, self.ring_size as int), self.ring_size as int)
        }
    }

    pub fn new(ring_size: usize) -> (r: Self)
        requires
            ring_size > 0,
        ensures
            r.wf(),
            r.head == 0,
            r.ring_size == ring_size,
            r.history@ == Seq::<T>::empty(),
    {
        let mut ring: Vec<LockSlot<T>> = Vec::new();
        let mut i: usize = 0;
        while i < ring_size
            invariant
                i <= ring_size,
                ring@.len() == i,
            decreases ring_size - i,
        {
            ring.push(LockSlot::new());
            i = i + 1;
        }
        OverwriteRing { head: 0, ring_size, ring, history: Ghost(Seq::empty()) }
    }

    /// Stores `item` at `head`, over whatever the slot held.
    pub fn push(&mut self, item: T)
        requires
            old(self).wf(),
            old(self).head < usize::MAX,
        ensures
            final(self).wf(),
            final(self).ring_size == old(self).ring_size,
            final(self).head == old(self).head + 1,
            final(self).history@ == old(self).history@.push(item),
    {
        let head = self.head;
        let idx = head % self.ring_size;
        proof {
            lemma_slot_in_range(head as int, self.ring_size as int);
        }
        let ghost pre = *self;
        self.ring.set(idx, LockSlot { data: Some(item) });
        self.head = head + 1;
        self.history = Ghost(self.history@.push(item));
        proof {
            assert forall|c: int| self.oldest() <= c < self.head implies #[trigger] self.cell_at(c)
                == Some(self.history@[c]) by {
                if c != head {
                    lemma_window_distinct(c, head as int, self.ring_size as int);
                    assert(self.cell_at(c) == pre.cell_at(c));
                }
            }
        }
    }

    /// Copies the payload of the slot at `*local_tail` once it has been
    /// written, and advances the tail; leaves everything as it was otherwise.
    pub fn pop(&self, local_tail: &mut usize) -> (r: Option<T>)
        requires
            self.wf(),
        ensures
            *old(local_tail) < self.head ==> {
                &&& r == Some(self.history@[self.read_cursor(*old(local_tail) as int)])
                &&& *final(local_tail) == *old(local_tail) + 1
                &&& *old(local_tail) <= self.read_cursor(*old(local_tail) as int) < self.head
            },
            *old(local_tail) >= self.head ==> r is None && *final(local_tail) == *old(local_tail),
    {
        let lt = *local_tail;
        if lt >= self.head {
            return None;
        }
        let idx = lt % self.ring_size;
        proof {
            lemma_slot_in_range(lt as int, self.ring_size as int);
            let c = self.read_cursor(lt as int);
            if lt < self.oldest() {
                lemma_cursor_in_window(self.oldest(), slot_of(lt as int, self.ring_size as int), self.ring_size as int);
            }
            assert(self.cell_at(c) == Some(self.history@[c]));
        }
        *local_tail = lt + 1;
        self.ring[idx].data
    }
}

} // verus!
