//! Properties that hold of every reachable state of the rings.
use vstd::prelude::*;
use crate::rings::cursor::{slot_of, lemma_next_lap};
use crate::rings::fifo::SeqFifo;
use crate::rings::dual::DualIndexFifo;
use crate::rings::skipping::{SkippingRing, written_state};
use crate::rings::broadcast::BroadcastRing;
use crate::rings::indiv_spsc_group::MPSCIndivSPSCGroup;
use crate::payload::{terminations_for, stash_indices, TERMINATOR};
use crate::rings::{RingName, DistributionType, distribution_of};

verus! {

/// In the sequence-counter ring every payload ever pushed has either been
/// taken exactly once, in push order, or still waits in the ring; and the
/// ring never holds more than its capacity.
pub proof fn lemma_seq_fifo_conserves<T>(r: &SeqFifo<T>)
    requires
        r.wf(),
    ensures
        r.history@ == r.delivered() + r.view(),
        r.view().len() <= r.ring_size,
        r.head - r.tail <= r.ring_size,
{
    assert forall|i: int| 0 <= i < r.view().len() implies r.view()[i] == r.history@[r.tail + i] by {
        assert(r.slot_at(r.tail + i).data == Some(r.history@[r.tail + i]));
    }
    assert(r.history@ =~= r.delivered() + r.view());
}

/// The same for each producer's ring of the per-producer group: every
/// payload a producer pushed has been taken exactly once, in its push order,
/// or still waits in that producer's ring.
pub proof fn lemma_group_conserves<T>(g: &MPSCIndivSPSCGroup<T>)
    requires
        g.wf(),
    ensures
        forall|p: int|
            0 <= p < g.rings@.len() ==> (#[trigger] g.rings@[p]).inner.history@ == g.rings@[p].inner.delivered()
                + g.rings@[p].inner.view(),
{
    assert forall|p: int| 0 <= p < g.rings@.len() implies (#[trigger] g.rings@[p]).inner.history@
        == g.rings@[p].inner.delivered() + g.rings@[p].inner.view() by {
        lemma_seq_fifo_conserves(&g.rings@[p].inner);
    }
}

/// The same for the dual-index ring.
pub proof fn lemma_dual_index_conserves<T>(r: &DualIndexFifo<T>)
    requires
        r.wf(),
    ensures
        r.history@ == r.delivered() + r.view(),
        r.view().len() <= r.ring_size,
        r.head - r.tail <= r.ring_size,
{
    assert forall|i: int| 0 <= i < r.view().len() implies r.view()[i] == r.history@[r.tail + i] by {
        assert(r.cell_at(r.tail + i) == Some(r.history@[r.tail + i]));
    }
    assert(r.history@ =~= r.delivered() + r.view());
}

/// The counter of the slot of any cursor `c` in the current lap says
/// "waiting for the writer of `c`" (`c`) or "holding the payload of `c`"
/// (`c + 1`); a released slot's counter `c + R` is the waiting state of
/// cursor `c + R`, which shares the slot.
pub proof fn lemma_seq_counter_cycle<T>(r: &SeqFifo<T>, c: int)
    requires
        r.wf(),
        r.tail <= c < r.tail + r.ring_size,
    ensures
        c >= r.head ==> r.slot_at(c).seq == c,
        c < r.head ==> r.slot_at(c).seq == c + 1,
        slot_of(c + r.ring_size, r.ring_size as int) == slot_of(c, r.ring_size as int),
{
    lemma_next_lap(c, r.ring_size as int);
}

/// In the skipping ring, the slot of a cursor written in the last lap holds
/// either its committed payload (`c + 1`) or nothing, released (`c + R`).
pub proof fn lemma_skipping_counter_states<T>(r: &SkippingRing<T>, c: int)
    requires
        r.wf(),
        r.oldest() <= c < r.head,
    ensures
        written_state(r.slot_at(c), c, r.ring_size as int, r.history@[c]),
{
}

/// A single-slot sequence-counter ring holds at most one payload, so pushes
/// and pops alternate.
pub proof fn lemma_single_slot_alternates<T>(r: &SeqFifo<T>)
    requires
        r.wf(),
        r.ring_size == 1,
    ensures
        r.view().len() <= 1,
{
}

/// A broadcast reader has taken exactly the payloads written from the moment
/// it joined up to its tail, in order, and the writer is never more than a
/// lap ahead of it.
pub proof fn lemma_broadcast_suffix<T: Copy>(r: &BroadcastRing<T>, id: int)
    requires
        r.wf(),
        r.active(id),
    ensures
        r.received@[id] == r.history@.subrange(r.joined@[id], r.tail_of(id)),
        r.joined@[id] <= r.tail_of(id) <= r.head,
        r.head - r.tail_of(id) <= r.ring_size,
{
}

/// Terminators: with a broadcasting ring every consumer sees each producer's
/// single terminator, so `producers` in all; with a load-balancing ring the
/// producers send `producers * consumers` terminators between them, which is
/// `producers` for each consumer.
pub proof fn lemma_terminator_count(
    name: RingName,
    producers: nat,
    consumers: usize,
    sample_size: nat,
    offset: int,
)
    ensures
        stash_indices(offset, sample_size, terminations_for(name, consumers)).len() == sample_size
            + terminations_for(name, consumers),
        forall|i: int|
            sample_size <= i < sample_size + terminations_for(name, consumers) ==> #[trigger] stash_indices(
                offset,
                sample_size,
                terminations_for(name, consumers),
            )[i] == TERMINATOR,
        distribution_of(name) == DistributionType::Broadcast ==> producers * terminations_for(
            name,
            consumers,
        ) == producers,
        distribution_of(name) == DistributionType::LoadBalancer ==> producers * terminations_for(
            name,
            consumers,
        ) == producers * consumers,
{
}

} // verus!
