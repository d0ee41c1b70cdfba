//! The skipping ring: per-slot sequence counters, a writer that never waits,
//! and readers that notice when they have been lapped and skip ahead to the
//! most recent payload instead of reading stale or torn data.
use vstd::prelude::*;
use crate::rings::cursor::{
    slot_of, cursor_in_window, lemma_window_distinct, lemma_slot_in_range,
    lemma_cursor_in_window, lemma_same_slot_lap, lemma_next_lap,
};
use crate::rings::slot::Slot;

verus! {

pub struct SkippingRing<T> {
    pub head: usize,
    pub ring_size: usize,
    pub ring: Vec<Slot<T>>,
    /// Every payload ever written, in cursor order.
    pub history: Ghost<Seq<T>>,
}

/// The two states of a slot whose last write was cursor `c`: committed and
/// unread (`seq == c + 1`), or read and released a lap ahead (`seq == c + r`).
pub open spec fn written_state<T>(s: Slot<T>, c: int, r: int, payload: T) -> bool {
    ||| s.seq == c + 1 && s.data == Some(payload)
    ||| s.seq == c + r && s.data is None
}

impl<T> SkippingRing<T> {
    pub open spec fn slot_at(&self, c: int) -> Slot<T> {
        self.ring@[slot_of(c, self.ring_size as int)]
    }

    /// The oldest cursor whose payload can still be in the ring.
    pub open spec fn oldest(&self) -> int {
        if self.head >= self.ring_size { self.head - self.ring_size } else { 0 }
    }

    pub open spec fn wf(&self) -> bool {
        &&& self.ring_size > 0
        &&& self.ring@.len() == self.ring_size
        &&& self.history@.len() == self.head
        &&& self.head + self.ring_size <= usize::MAX
        &&& forall|c: int|
            self.oldest() <= c < self.head ==> written_state(
                #[trigger] self.slot_at(c),
                c,
                self.ring_size as int,
                self.history@[c],
            )
        &&& forall|c: int|
            self.head <= c < self.ring_size ==> (#[trigger] self.slot_at(c)).seq == c
                && self.slot_at(c).data is None
    }

    /// Whether the payload of cursor `c` still waits in its slot.
    pub open spec fn unread(&self, c: int) -> bool {
        &&& self.oldest() <= c < self.head
        &&& self.slot_at(c).seq == c + 1
        &&& self.slot_at(c).data is Some
    }

    pub fn new(ring_size: usize) -> (r: Self)
        requires
            ring_size > 0,
            ring_size < usize::MAX,
        ensures
            r.wf(),
            r.head == 0,
            r.ring_size == ring_size,
            r.history@ == Seq::<T>::empty(),
    {
        let mut ring: Vec<Slot<T>> = Vec::new();
        let mut i: usize = 0;
        while i < ring_size
            invariant
                i <= ring_size,
                ring@.len() == i,
                forall|j: int| 0 <= j < i ==> (#[trigger] ring@[j]).seq == j && ring@[j].data is None,
            decreases ring_size - i,
        {
            ring.push(Slot::uninit(i));
            i = i + 1;
        }
        let r = SkippingRing { head: 0, ring_size, ring, history: Ghost(Seq::empty()) };
        assert forall|c: int| 0 <= c < ring_size implies (#[trigger] r.slot_at(c)).seq == c
            && r.slot_at(c).data is None by {
            vstd::arithmetic::div_mod::lemma_small_mod(c as nat, ring_size as nat);
        }
        r
    }

    /// Whether one more push keeps every cursor and counter within `usize`.
    pub open spec fn has_room(&self) -> bool {
        self.head + 1 + self.ring_size <= usize::MAX
    }

    /// Stores `item` at `head` and commits it, whether or not the slot's
    /// previous payload was read.
    pub fn push(&mut self, item: T)
        requires
            old(self).wf(),
            old(self).has_room(),
        ensures
            final(self).wf(),
            final(self).ring_size == old(self).ring_size,
            final(self).head == old(self).head + 1,
            final(self).history@ == old(self).history@.push(item),
            final(self).unread(old(self).head as int),
            forall|c: int|
                #[trigger] old(self).unread(c) && c != old(self).head - old(self).ring_size
                    ==> final(self).unread(c),
    {
        let head = self.head;
        let idx = head % self.ring_size;
        proof {
            lemma_slot_in_range(head as int, self.ring_size as int);
        }
        let ghost pre = *self;
        self.ring.set(idx, Slot { seq: head + 1, data: Some(item) });
        self.head = head + 1;
        self.history = Ghost(self.history@.push(item));
        proof {
            let r = self.ring_size as int;
            assert forall|c: int| self.oldest() <= c < self.head implies written_state(
                #[trigger] self.slot_at(c),
                c,
                r,
                self.history@[c],
            ) by {
                if c != head {
                    lemma_window_distinct(c, head as int, r);
                    assert(self.slot_at(c) == pre.slot_at(c));
                }
            }
            assert forall|c: int| self.head <= c < r implies (#[trigger] self.slot_at(c)).seq == c
                && self.slot_at(c).data is None by {
                lemma_window_distinct(head as int, c, r);
                assert(self.slot_at(c) == pre.slot_at(c));
            }
            assert forall|c: int| #[trigger] pre.unread(c) && c != head - r implies self.unread(c) by {
                lemma_window_distinct(c, head as int, r);
                assert(self.slot_at(c) == pre.slot_at(c));
            }
        }
    }

    /// Claims the head slot only once the payload a lap earlier has been
    /// read, then writes and commits `item`; hands `item` back otherwise.
    pub fn push_gated(&mut self, item: T) -> (r: Result<(), T>)
        requires
            old(self).wf(),
            old(self).has_room(),
        ensures
            final(self).wf(),
            final(self).ring_size == old(self).ring_size,
            old(self).head >= old(self).ring_size && old(self).unread(old(self).head - old(self).ring_size)
                ==> r == Err::<(), T>(item) && *final(self) == *old(self),
            !(old(self).head >= old(self).ring_size && old(self).unread(
                old(self).head - old(self).ring_size,
            )) ==> {
                &&& r is Ok
                &&& final(self).head == old(self).head + 1
                &&& final(self).history@ == old(self).history@.push(item)
                &&& final(self).unread(old(self).head as int)
                &&& forall|c: int| #[trigger] old(self).unread(c) ==> final(self).unread(c)
            },
    {
        let head = self.head;
        let idx = head % self.ring_size;
        proof {
            let r = self.ring_size as int;
            lemma_slot_in_range(head as int, r);
            if head >= self.ring_size {
                lemma_next_lap(head - r, r);
                assert(written_state(self.slot_at(head - r), head - r, r, self.history@[head - r]));
            } else {
                assert(self.slot_at(head as int).seq == head);
            }
        }
        if self.ring[idx].seq != head || self.ring[idx].data.is_some() {
            return Err(item);
        }
        self.push(item);
        Ok(())
    }

    /// What the counter of the slot of any cursor `lt` says about it.
    proof fn lemma_counter_at(&self, lt: int)
        requires
            self.wf(),
            0 <= lt,
        ensures
            lt >= self.head ==> self.slot_at(lt).seq <= lt,
            lt < self.oldest() ==> self.slot_at(lt).seq > lt + 1,
            self.slot_at(lt).seq == lt + 1 ==> self.oldest() <= lt < self.head,
            self.unread(lt) ==> self.slot_at(lt).data == Some(self.history@[lt]),
    {
        let r = self.ring_size as int;
        let k = slot_of(lt, r);
        lemma_slot_in_range(lt, r);
        if self.head >= r {
            let c = cursor_in_window(self.head - r, k, r);
            lemma_cursor_in_window(self.head - r, k, r);
            assert(self.slot_at(c) == self.slot_at(lt));
            assert(written_state(self.slot_at(c), c, r, self.history@[c]));
            if lt >= self.head {
                lemma_same_slot_lap(c, lt, r);
            }
            if lt < self.oldest() {
                lemma_same_slot_lap(lt, c, r);
            }
            if self.oldest() <= lt < self.head && c != lt {
                if c < lt {
                    lemma_window_distinct(c, lt, r);
                } else {
                    lemma_window_distinct(lt, c, r);
                }
            }
        } else {
            vstd::arithmetic::div_mod::lemma_small_mod(k as nat, r as nat);
            vstd::arithmetic::div_mod::lemma_fundamental_div_mod(lt, r);
            vstd::arithmetic::div_mod::lemma_div_pos_is_pos(lt, r);
            assert(self.slot_at(k) == self.slot_at(lt));
            if k < self.head {
                assert(written_state(self.slot_at(k), k, r, self.history@[k]));
                if lt >= self.head {
                    lemma_same_slot_lap(k, lt, r);
                }
                if lt < self.head && k != lt {
                    lemma_same_slot_lap(k, lt, r);
                }
            } else {
                assert(k <= lt) by (nonlinear_arith)
                    requires
                        lt == r * (lt / r) + k,
                        lt / r >= 0,
                        r > 0,
                ;
                if lt < self.head {
                    lemma_same_slot_lap(k, lt, r);
                }
            }
        }
    }

    /// Takes the payload of cursor `c` if it is still unread, releasing its
    /// slot a lap ahead.
    fn take_unread(&mut self, c: usize) -> (r: Option<T>)
        requires
            old(self).wf(),
            old(self).oldest() <= c < old(self).head,
        ensures
            final(self).wf(),
            final(self).head == old(self).head,
            final(self).ring_size == old(self).ring_size,
            final(self).history == old(self).history,
            old(self).unread(c as int) ==> r == Some(old(self).history@[c as int]),
            !old(self).unread(c as int) ==> r is None && *final(self) == *old(self),
            forall|d: int| #[trigger] old(self).unread(d) && d != c ==> final(self).unread(d),
    {
        let idx = c % self.ring_size;
        proof {
            lemma_slot_in_range(c as int, self.ring_size as int);
            self.lemma_counter_at(c as int);
        }
        if self.ring[idx].seq != c + 1 || self.ring[idx].data.is_none() {
            return None;
        }
        let ghost pre = *self;
        let mut slot = Slot { seq: c + self.ring_size, data: None };
        self.ring.set_and_swap(idx, &mut slot);
        proof {
            let r = self.ring_size as int;
            assert forall|d: int| self.oldest() <= d < self.head implies written_state(
                #[trigger] self.slot_at(d),
                d,
                r,
                self.history@[d],
            ) by {
                if d != c {
                    if d < c {
                        lemma_window_distinct(d, c as int, r);
                    } else {
                        lemma_window_distinct(c as int, d, r);
                    }
                    assert(self.slot_at(d) == pre.slot_at(d));
                }
            }
            assert forall|d: int| self.head <= d < r implies (#[trigger] self.slot_at(d)).seq == d
                && self.slot_at(d).data is None by {
                lemma_window_distinct(c as int, d, r);
                assert(self.slot_at(d) == pre.slot_at(d));
            }
            assert forall|d: int| #[trigger] pre.unread(d) && d != c implies self.unread(d) by {
                if d < c {
                    lemma_window_distinct(d, c as int, r);
                } else {
                    lemma_window_distinct(c as int, d, r);
                }
                assert(self.slot_at(d) == pre.slot_at(d));
            }
        }
        slot.data
    }

    /// One read attempt by a reader whose private tail is `*local_tail`.
    /// A committed payload at the tail is taken. A reader that finds its slot
    /// already rewritten has been lapped: it jumps to the most recent cursor,
    /// `head - 1`, and takes that payload if it is still unread.
    pub fn pop(&mut self, local_tail: &mut usize) -> (r: Option<T>)
        requires
            old(self).wf(),
        ensures
            final(self).wf(),
            final(self).head == old(self).head,
            final(self).ring_size == old(self).ring_size,
            final(self).history == old(self).history,
            r is Some ==> {
                &&& *old(local_tail) < *final(local_tail) <= old(self).head
                &&& r == Some(old(self).history@[*final(local_tail) - 1])
            },
            *old(local_tail) >= old(self).head ==> r is None && *final(local_tail) == *old(local_tail)
                && *final(self) == *old(self),
            forall|c: int|
                #[trigger] old(self).unread(c) && c != *final(local_tail) - 1 ==> final(self).unread(c),
            old(self).slot_at(*old(local_tail) as int).seq <= *old(local_tail) ==> r is None
                && *final(local_tail) == *old(local_tail) && *final(self) == *old(self),
            old(self).unread(*old(local_tail) as int) ==> {
                &&& r == Some(old(self).history@[*old(local_tail) as int])
                &&& *final(local_tail) == *old(local_tail) + 1
            },
            *old(local_tail) < old(self).oldest() && old(self).unread(old(self).head - 1) ==> {
                &&& r == Some(old(self).history@[old(self).head - 1])
                &&& *final(local_tail) == old(self).head
            },
    {
        let lt = *local_tail;
        let idx = lt % self.ring_size;
        proof {
            lemma_slot_in_range(lt as int, self.ring_size as int);
            self.lemma_counter_at(lt as int);
        }
        let seq = self.ring[idx].seq;
        if seq <= lt {
            return None;
        }
        if seq - lt == 1 {
            let r = self.take_unread(lt);
            if r.is_some() {
                *local_tail = lt + 1;
            }
            return r;
        }
        // Lapped: skip to the most recent payload.
        let head = self.head;
        let latest = if head > 0 { head - 1 } else { 0 };
        proof {
            assert(head > 0);
        }
        let r = self.take_unread(latest);
        if r.is_some() {
            *local_tail = head;
        } else {
            *local_tail = latest;
        }
        r
    }
}

} // verus!
