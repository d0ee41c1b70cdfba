//! The broadcasting ring: every reader registers its own tail and sees every
//! payload written after it joined. The writer waits while the slowest
//! registered reader is a full lap behind.
use vstd::prelude::*;
use crate::rings::cursor::{slot_of, lemma_window_distinct, lemma_slot_in_range};

verus! {

pub struct BroadcastRing<T> {
    pub head: usize,
    pub ring_size: usize,
    pub ring: Vec<Option<T>>,
    /// The tail of each reader that ever joined; `None` once it left.
    pub tails: Vec<Option<usize>>,
    /// Every payload ever written, in cursor order.
    pub history: Ghost<Seq<T>>,
    /// For each reader, the head at the time it joined.
    pub joined: Ghost<Seq<int>>,
    /// For each reader, the payloads it has taken, in order.
    pub received: Ghost<Seq<Seq<T>>>,
}

impl<T: Copy> BroadcastRing<T> {
    pub open spec fn cell_at(&self, c: int) -> Option<T> {
        self.ring@[slot_of(c, self.ring_size as int)]
    }

    pub open spec fn oldest(&self) -> int {
        if self.head >= self.ring_size { self.head - self.ring_size } else { 0 }
    }

    /// Whether reader `id` is registered, with tail `t`.
    pub open spec fn active(&self, id: int) -> bool {
        0 <= id < self.tails@.len() && self.tails@[id] is Some
    }

    pub open spec fn tail_of(&self, id: int) -> int {
        self.tails@[id]->0 as int
    }

    pub open spec fn wf(&self) -> bool {
        &&& self.ring_size > 0
        &&& self.ring@.len() == self.ring_size
        &&& self.history@.len() == self.head
        &&& forall|c: int|
            self.oldest() <= c < self.head ==> #[trigger] self.cell_at(c) == Some(self.history@[c])
        &&& forall|id: int|
            #[trigger] self.active(id) ==> self.tail_of(id) <= self.head <= self.tail_of(id)
                + self.ring_size
        &&& self.joined@.len() == self.tails@.len()
        &&& self.received@.len() == self.tails@.len()
        &&& forall|id: int|
            #[trigger] self.active(id) ==> 0 <= self.joined@[id] <= self.tail_of(id)
                && self.received@[id] == self.history@.subrange(self.joined@[id], self.tail_of(id))
    }

    /// Whether some registered reader is a full lap behind the writer.
    pub open spec fn blocked(&self) -> bool {
        exists|id: int| #[trigger] self.active(id) && self.head - self.tail_of(id) >= self.ring_size
    }

    pub fn new(ring_size: usize) -> (r: Self)
        requires
            ring_size > 0,
        ensures
            r.wf(),
            r.head == 0,
            r.ring_size == ring_size,
            r.tails@.len() == 0,
            r.history@ == Seq::<T>::empty(),
    {
        let mut ring: Vec<Option<T>> = Vec::new();
        let mut i: usize = 0;
        while i < ring_size
            invariant
                i <= ring_size,
                ring@.len() == i,
            decreases ring_size - i,
        {
            ring.push(None);
            i = i + 1;
        }
        BroadcastRing {
            head: 0,
            ring_size,
            ring,
            tails: Vec::new(),
            history: Ghost(Seq::empty()),
            joined: Ghost(Seq::empty()),
            received: Ghost(Seq::empty()),
        }
    }

    /// Registers a reader whose tail starts at the current `head`: it sees
    /// exactly the payloads written from now on.
    pub fn join(&mut self) -> (id: usize)
        requires
            old(self).wf(),
        ensures
            final(self).wf(),
            final(self).head == old(self).head,
            final(self).ring == old(self).ring,
            final(self).history == old(self).history,
            final(self).ring_size == old(self).ring_size,
            id == old(self).tails@.len(),
            final(self).tails@ == old(self).tails@.push(Some(old(self).head)),
            final(self).joined@ == old(self).joined@.push(old(self).head as int),
            final(self).received@ == old(self).received@.push(Seq::empty()),
    {
        let id = self.tails.len();
        self.tails.push(Some(self.head));
        self.joined = Ghost(self.joined@.push(self.head as int));
        self.received = Ghost(self.received@.push(Seq::empty()));
        proof {
            assert forall|c: int| self.oldest() <= c < self.head implies #[trigger] self.cell_at(c)
                == Some(self.history@[c]) by {
                assert(old(self).cell_at(c) == self.cell_at(c));
            }
            assert forall|j: int| #[trigger] self.active(j) implies self.tail_of(j) <= self.head
                <= self.tail_of(j) + self.ring_size by {
                if j < id {
                    assert(old(self).active(j));
                }
            }
            assert forall|j: int| #[trigger] self.active(j) implies 0 <= self.joined@[j] <= self.tail_of(j)
                && self.received@[j] == self.history@.subrange(self.joined@[j], self.tail_of(j)) by {
                if j < id {
                    assert(old(self).active(j));
                } else {
                    assert(self.history@.subrange(self.head as int, self.head as int) =~= Seq::<T>::empty());
                }
            }
        }
        id
    }

    /// Deregisters reader `id`; the writer no longer waits for it.
    pub fn leave(&mut self, id: usize)
        requires
            old(self).wf(),
            id < old(self).tails@.len(),
        ensures
            final(self).wf(),
            final(self).head == old(self).head,
            final(self).ring == old(self).ring,
            final(self).history == old(self).history,
            final(self).ring_size == old(self).ring_size,
            final(self).tails@ == old(self).tails@.update(id as int, None),
    {
        self.tails.set(id, None);
        proof {
            assert forall|c: int| self.oldest() <= c < self.head implies #[trigger] self.cell_at(c)
                == Some(self.history@[c]) by {
                assert(old(self).cell_at(c) == self.cell_at(c));
            }
            assert forall|j: int| #[trigger] self.active(j) implies self.tail_of(j) <= self.head
                <= self.tail_of(j) + self.ring_size by {
                assert(old(self).active(j));
            }
            assert forall|j: int| #[trigger] self.active(j) implies 0 <= self.joined@[j] <= self.tail_of(j)
                && self.received@[j] == self.history@.subrange(self.joined@[j], self.tail_of(j)) by {
                assert(old(self).active(j));
            }
        }
    }

    /// Writes `item` at `head` unless a registered reader is a full lap
    /// behind; hands it back then.
    pub fn push(&mut self, item: T) -> (r: Result<(), T>)
        requires
            old(self).wf(),
            old(self).head < usize::MAX,
        ensures
            final(self).wf(),
            final(self).ring_size == old(self).ring_size,
            final(self).tails == old(self).tails,
            !old(self).blocked() ==> {
                &&& r is Ok
                &&& final(self).head == old(self).head + 1
                &&& final(self).history@ == old(self).history@.push(item)
            },
            old(self).blocked() ==> r == Err::<(), T>(item) && *final(self) == *old(self),
    {
        let head = self.head;
        let mut i: usize = 0;
        while i < self.tails.len()
            invariant
                self.wf(),
                head == self.head,
                i <= self.tails@.len(),
                forall|j: int|
                    0 <= j < i && #[trigger] self.active(j) ==> self.head - self.tail_of(j)
                        < self.ring_size,
            decreases self.tails.len() - i,
        {
            match self.tails[i] {
                Some(t) => {
                    proof {
                        assert(self.active(i as int));
                    }
                    if head - t >= self.ring_size {
                        proof {
                            assert(self.active(i as int));
                        }
                        return Err(item);
                    }
                },
                None => {},
            }
            i = i + 1;
        }
        let idx = head % self.ring_size;
        proof {
            lemma_slot_in_range(head as int, self.ring_size as int);
        }
        let ghost pre = *self;
        self.ring.set(idx, Some(item));
        self.head = head + 1;
        self.history = Ghost(self.history@.push(item));
        proof {
            assert forall|c: int| self.oldest() <= c < self.head implies #[trigger] self.cell_at(c)
                == Some(self.history@[c]) by {
                if c != head {
                    lemma_window_distinct(c, head as int, self.ring_size as int);
                    assert(self.cell_at(c) == pre.cell_at(c));
                }
            }
            assert forall|j: int| #[trigger] self.active(j) implies self.tail_of(j) <= self.head
                <= self.tail_of(j) + self.ring_size by {
                assert(pre.active(j));
            }
            assert forall|j: int| #[trigger] self.active(j) implies 0 <= self.joined@[j] <= self.tail_of(j)
                && self.received@[j] == self.history@.subrange(self.joined@[j], self.tail_of(j)) by {
                assert(pre.active(j));
                assert(self.history@.subrange(self.joined@[j], self.tail_of(j)) =~= pre.history@.subrange(
                    self.joined@[j],
                    self.tail_of(j),
                ));
            }
        }
        Ok(())
    }

    /// Copies the next payload for reader `id`, if one was written.
    pub fn pop(&mut self, id: usize) -> (r: Option<T>)
        requires
            old(self).wf(),
            old(self).active(id as int),
        ensures
            final(self).wf(),
            final(self).head == old(self).head,
            final(self).ring == old(self).ring,
            final(self).history == old(self).history,
            final(self).ring_size == old(self).ring_size,
            final(self).joined == old(self).joined,
            old(self).tail_of(id as int) < old(self).head ==> {
                &&& r == Some(old(self).history@[old(self).tail_of(id as int)])
                &&& final(self).received@ == old(self).received@.update(
                    id as int,
                    old(self).received@[id as int].push(old(self).history@[old(self).tail_of(id as int)]),
                )
                &&& final(self).tails@ == old(self).tails@.update(
                    id as int,
                    Some((old(self).tail_of(id as int) + 1) as usize),
                )
            },
            old(self).tail_of(id as int) == old(self).head ==> r is None && *final(self) == *old(self),
    {
        let t = match self.tails[id] {
            Some(t) => t,
            None => { return None; },
        };
        if t >= self.head {
            return None;
        }
        let idx = t % self.ring_size;
        proof {
            lemma_slot_in_range(t as int, self.ring_size as int);
            assert(self.cell_at(t as int) == Some(self.history@[t as int]));
        }
        let item = self.ring[idx];
        self.tails.set(id, Some(t + 1));
        self.received = Ghost(self.received@.update(id as int, self.received@[id as int].push(self.history@[t as int])));
        proof {
            assert forall|c: int| self.oldest() <= c < self.head implies #[trigger] self.cell_at(c)
                == Some(self.history@[c]) by {
                assert(old(self).cell_at(c) == self.cell_at(c));
            }
            assert forall|j: int| #[trigger] self.active(j) implies self.tail_of(j) <= self.head
                <= self.tail_of(j) + self.ring_size by {
                assert(old(self).active(j));
            }
            assert forall|j: int| #[trigger] self.active(j) implies 0 <= self.joined@[j] <= self.tail_of(j)
                && self.received@[j] == self.history@.subrange(self.joined@[j], self.tail_of(j)) by {
                assert(old(self).active(j));
                if j == id {
                    assert(self.history@.subrange(self.joined@[j], self.tail_of(j)) =~= old(self).history@.subrange(
                        self.joined@[j],
                        old(self).tail_of(j),
                    ).push(self.history@[t as int]));
                }
            }
        }
        item
    }
}

} // verus!
