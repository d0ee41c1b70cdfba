//! The sequence-counter ring: every slot carries a counter, writers claim the
//! slot at `head` when its counter equals `head`, readers claim the slot at
//! `tail` when its counter equals `tail + 1`. Nothing is ever lost.
use vstd::prelude::*;
use crate::rings::cursor::{slot_of, lemma_window_distinct, lemma_next_lap, lemma_slot_in_range};
use crate::rings::slot::Slot;

verus! {

pub struct SeqFifo<T> {
    pub head: usize,
    pub tail: usize,
    pub ring_size: usize,
    pub ring: Vec<Slot<T>>,
    /// Every payload ever pushed, in cursor order.
    pub history: Ghost<Seq<T>>,
}

impl<T> SeqFifo<T> {
    /// The counter that the slot of cursor `c` holds: `c + 1` while the
    /// payload of `c` waits for a reader, `c` while the slot waits for the
    /// writer of `c`.
    pub open spec fn expected_seq(&self, c: int) -> int {
        if c < self.head { c + 1 } else { c }
    }

    pub open spec fn slot_at(&self, c: int) -> Slot<T> {
        self.ring@[slot_of(c, self.ring_size as int)]
    }

    pub open spec fn wf(&self) -> bool {
        &&& self.ring_size > 0
        &&& self.ring@.len() == self.ring_size
        &&& self.tail <= self.head <= self.tail + self.ring_size
        &&& self.head + self.ring_size <= usize::MAX
        &&& forall|c: int|
            self.tail <= c < self.tail + self.ring_size ==> (#[trigger] self.slot_at(c)).seq
                == self.expected_seq(c)
        &&& forall|c: int|
            self.tail <= c < self.head ==> (#[trigger] self.slot_at(c)).data == Some(self.history@[c])
        &&& self.history@.len() == self.head
    }

    /// The payloads taken so far, in the order they were taken.
    pub open spec fn delivered(&self) -> Seq<T> {
        self.history@.subrange(0, self.tail as int)
    }

    /// The payloads waiting to be read, oldest first.
    pub open spec fn view(&self) -> Seq<T> {
        Seq::new((self.head - self.tail) as nat, |i: int| self.slot_at(self.tail + i).data->0)
    }

    pub open spec fn len(&self) -> nat {
        (self.head - self.tail) as nat
    }

    /// Whether one more push keeps every cursor and counter within `usize`.
    pub open spec fn has_room(&self) -> bool {
        self.head + 1 + self.ring_size <= usize::MAX
    }

    pub fn new(ring_size: usize) -> (r: Self)
        requires
            ring_size > 0,
        ensures
            r.wf(),
            r.head == 0,
            r.tail == 0,
            r.ring_size == ring_size,
            r.view() == Seq::<T>::empty(),
            r.history@ == Seq::<T>::empty(),
            forall|i: int| 0 <= i < ring_size ==> (#[trigger] r.ring@[i]).seq == i,
    {
        let mut ring: Vec<Slot<T>> = Vec::new();
        let mut i: usize = 0;
        while i < ring_size
            invariant
                i <= ring_size,
                ring@.len() == i,
                forall|j: int| 0 <= j < i ==> (#[trigger] ring@[j]).seq == j && ring@[j].data is None,
            decreases ring_size - i,
        {
            ring.push(Slot::new(i));
            i = i + 1;
        }
        let r = SeqFifo { head: 0, tail: 0, ring_size, ring, history: Ghost(Seq::empty()) };
        assert forall|c: int| 0 <= c < ring_size implies (#[trigger] r.slot_at(c)).seq == r.expected_seq(c) by {
            vstd::arithmetic::div_mod::lemma_small_mod(c as nat, ring_size as nat);
        }
        assert(r.view() =~= Seq::<T>::empty());
        r
    }

    /// Places `item` at `head` when its slot is free for this lap; hands it
    /// back when the ring is full.
    pub fn push(&mut self, item: T) -> (r: Result<(), T>)
        requires
            old(self).wf(),
            old(self).has_room(),
        ensures
            final(self).wf(),
            final(self).ring_size == old(self).ring_size,
            final(self).tail == old(self).tail,
            old(self).len() < old(self).ring_size ==> {
                &&& r is Ok
                &&& final(self).view() == old(self).view().push(item)
                &&& final(self).head == old(self).head + 1
                &&& final(self).history@ == old(self).history@.push(item)
                &&& old(self).slot_at(old(self).head as int).seq == old(self).head
                &&& final(self).slot_at(old(self).head as int).seq == old(self).head + 1
            },
            old(self).len() == old(self).ring_size ==> {
                &&& r == Err::<(), T>(item)
                &&& *final(self) == *old(self)
            },
    {
        let head = self.head;
        let idx = head % self.ring_size;
        proof {
            lemma_slot_in_range(head as int, self.ring_size as int);
        }
        // With a single slot, a committed payload and a free slot carry the
        // same counter: the distance between the cursors tells them apart.
        if head - self.tail >= self.ring_size || self.ring[idx].seq != head {
            proof {
                if head < self.tail + self.ring_size {
                    assert(self.slot_at(head as int).seq == head);
                }
            }
            return Err(item);
        }
        let ghost pre = *self;
        self.ring.set(idx, Slot { seq: head + 1, data: Some(item) });
        self.head = head + 1;
        self.history = Ghost(self.history@.push(item));
        proof {
            assert forall|c: int| self.tail <= c < self.tail + self.ring_size implies (#[trigger] self.slot_at(c)).seq
                == self.expected_seq(c) by {
                if c != head {
                    if c < head {
                        lemma_window_distinct(c, head as int, self.ring_size as int);
                    } else {
                        lemma_window_distinct(head as int, c, self.ring_size as int);
                    }
                    assert(self.slot_at(c) == pre.slot_at(c));
                }
            }
            assert forall|c: int| self.tail <= c < self.head implies (#[trigger] self.slot_at(c)).data
                == Some(self.history@[c]) by {
                if c != head {
                    lemma_window_distinct(c, head as int, self.ring_size as int);
                    assert(self.slot_at(c) == pre.slot_at(c));
                }
            }
            assert forall|i: int| 0 <= i < pre.len() implies self.view()[i] == pre.view()[i] by {
                lemma_window_distinct(self.tail + i, head as int, self.ring_size as int);
            }
            assert(self.view() =~= pre.view().push(item));
        }
        Ok(())
    }

    /// Takes the payload at `tail` when one is committed, and releases its
    /// slot one full lap ahead.
    pub fn pop(&mut self) -> (r: Option<T>)
        requires
            old(self).wf(),
        ensures
            final(self).wf(),
            final(self).ring_size == old(self).ring_size,
            final(self).head == old(self).head,
            final(self).history == old(self).history,
            old(self).len() > 0 ==> {
                &&& r == Some(old(self).view()[0])
                &&& final(self).view() == old(self).view().drop_first()
                &&& final(self).tail == old(self).tail + 1
                &&& final(self).delivered() == old(self).delivered().push(old(self).view()[0])
                &&& old(self).slot_at(old(self).tail as int).seq == old(self).tail + 1
                &&& final(self).slot_at(old(self).tail as int).seq == old(self).tail + old(self).ring_size
            },
            old(self).len() == 0 ==> r is None && *final(self) == *old(self),
    {
        let tail = self.tail;
        let idx = tail % self.ring_size;
        proof {
            lemma_slot_in_range(tail as int, self.ring_size as int);
            assert(self.slot_at(tail as int).seq == self.expected_seq(tail as int));
        }
        if self.ring[idx].seq != tail + 1 {
            return None;
        }
        let ghost pre = *self;
        let mut slot = Slot { seq: tail + self.ring_size, data: None };
        self.ring.set_and_swap(idx, &mut slot);
        self.tail = tail + 1;
        proof {
            lemma_next_lap(tail as int, self.ring_size as int);
            assert forall|c: int| self.tail <= c < self.tail + self.ring_size implies (#[trigger] self.slot_at(c)).seq
                == self.expected_seq(c) by {
                if c != tail + self.ring_size {
                    lemma_window_distinct(tail as int, c, self.ring_size as int);
                    assert(self.slot_at(c) == pre.slot_at(c));
                }
            }
            assert forall|c: int| self.tail <= c < self.head implies (#[trigger] self.slot_at(c)).data
                == Some(self.history@[c]) by {
                lemma_window_distinct(tail as int, c, self.ring_size as int);
                assert(self.slot_at(c) == pre.slot_at(c));
            }
            assert forall|i: int| 0 <= i < self.len() implies self.view()[i] == pre.view().drop_first()[i] by {
                lemma_window_distinct(tail as int, self.tail + i, self.ring_size as int);
                assert(self.tail + i == pre.tail + (i + 1));
            }
            assert(self.view() =~= pre.view().drop_first());
            assert(self.delivered() =~= pre.delivered().push(pre.view()[0]));
        }
        slot.data
    }
}

} // verus!
