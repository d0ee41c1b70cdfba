//! Payloads, and the stashes that hand a producer its payloads followed by
//! its terminators.
use vstd::prelude::*;
use crate::clock::{now, nanos_since, saturate_nanos};
use crate::rings::{RingName, DistributionType, distribution_of};

verus! {

/// The index that marks the end of a producer's stream.
pub const TERMINATOR: usize = usize::MAX;

pub assume_specification<T>[ rand::random::<T> ]() -> (r: T)
    where
        rand::distributions::Standard: rand::distributions::Distribution<T>,
;

/// What a payload carries besides its index and timestamp.
#[derive(Debug, Clone, Copy, PartialEq, Eq, Structural)]
pub enum PayloadByteType {
    Random,
    Blank,
}

/// The operations that the stashes and consumers need of a payload.
pub trait AnyPayload: Sized {
    spec fn index_of(&self) -> usize;

    spec fn is_copyable() -> bool;

    spec fn size_of_data() -> usize;

    /// Whether the payload is copied (rather than moved) out of a ring.
    fn copyable() -> (r: bool)
        ensures
            r == Self::is_copyable(),
    ;

    /// The number of data bytes it carries.
    fn payload_size() -> (r: usize)
        ensures
            r == Self::size_of_data(),
    ;

    /// A payload of zero bytes.
    fn new_blank(idx: usize) -> (r: Self)
        ensures
            r.index_of() == idx,
    ;

    /// A payload of random bytes.
    fn new_random(idx: usize) -> (r: Self)
        ensures
            r.index_of() == idx,
    ;

    /// Stamps the payload with the current time, just before it is sent.
    fn update_timestamp(&mut self)
        ensures
            final(self).index_of() == old(self).index_of(),
    ;

    /// The payload's index and the nanoseconds since it was stamped.
    fn collapse_timestamp(&self) -> (r: (usize, u64))
        ensures
            r.0 == self.index_of(),
    ;
}

/// A payload held inline: copying it copies its bytes.
#[derive(Debug, Clone, Copy)]
pub struct CopyablePayload<const PAYLOAD_SIZE: usize> {
    pub data: [u8; PAYLOAD_SIZE],
    /// The instant it was sent.
    pub timestamp: minstant::Instant,
    pub idx: usize,
}

/// A payload whose bytes live on the heap: it is moved, not copied.
#[derive(Debug)]
pub struct HeapPayload<const PAYLOAD_SIZE: usize> {
    pub data: Box<[u8; PAYLOAD_SIZE]>,
    /// The instant it was sent.
    pub timestamp: minstant::Instant,
    pub idx: usize,
}

impl<const PAYLOAD_SIZE: usize> Clone for HeapPayload<PAYLOAD_SIZE> {
    fn clone(&self) -> (r: Self)
        ensures
            r.idx == self.idx,
            r.timestamp == self.timestamp,
    {
        HeapPayload { data: self.data.clone(), timestamp: self.timestamp, idx: self.idx }
    }
}

/// `PAYLOAD_SIZE` random bytes.
fn random_bytes<const PAYLOAD_SIZE: usize>() -> (r: [u8; PAYLOAD_SIZE]) {
    let mut data = [0u8; PAYLOAD_SIZE];
    let mut i: usize = 0;
    while i < PAYLOAD_SIZE
        invariant
            data@.len() == PAYLOAD_SIZE,
        decreases PAYLOAD_SIZE - i,
    {
        let b: u8 = rand::random::<u8>();
        data[i] = b;
        i = i + 1;
    }
    data
}

impl<const PAYLOAD_SIZE: usize> AnyPayload for CopyablePayload<PAYLOAD_SIZE> {
    open spec fn index_of(&self) -> usize {
        self.idx
    }

    open spec fn is_copyable() -> bool {
        true
    }

    open spec fn size_of_data() -> usize {
        PAYLOAD_SIZE
    }

    fn copyable() -> (r: bool) {
        true
    }

    fn payload_size() -> (r: usize) {
        PAYLOAD_SIZE
    }

    fn new_blank(idx: usize) -> (r: Self) {
        CopyablePayload { data: [0u8; PAYLOAD_SIZE], timestamp: now(), idx }
    }

    fn new_random(idx: usize) -> (r: Self) {
        CopyablePayload { data: random_bytes::<PAYLOAD_SIZE>(), timestamp: now(), idx }
    }

    fn update_timestamp(&mut self) {
        self.timestamp = now();
    }

    fn collapse_timestamp(&self) -> (r: (usize, u64)) {
        (self.idx, saturate_nanos(nanos_since(&self.timestamp)))
    }
}

impl<const PAYLOAD_SIZE: usize> AnyPayload for HeapPayload<PAYLOAD_SIZE> {
    open spec fn index_of(&self) -> usize {
        self.idx
    }

    open spec fn is_copyable() -> bool {
        false
    }

    open spec fn size_of_data() -> usize {
        PAYLOAD_SIZE
    }

    fn copyable() -> (r: bool) {
        false
    }

    fn payload_size() -> (r: usize) {
        PAYLOAD_SIZE
    }

    fn new_blank(idx: usize) -> (r: Self) {
        HeapPayload { data: Box::new([0u8; PAYLOAD_SIZE]), timestamp: now(), idx }
    }

    fn new_random(idx: usize) -> (r: Self) {
        HeapPayload { data: Box::new(random_bytes::<PAYLOAD_SIZE>()), timestamp: now(), idx }
    }

    fn update_timestamp(&mut self) {
        self.timestamp = now();
    }

    fn collapse_timestamp(&self) -> (r: (usize, u64)) {
        (self.idx, saturate_nanos(nanos_since(&self.timestamp)))
    }
}

impl<const PAYLOAD_SIZE: usize> Default for CopyablePayload<PAYLOAD_SIZE> {
    /// A blank payload with the placeholder index zero.
    fn default() -> (r: Self)
        ensures
            r.idx == 0,
    {
        CopyablePayload::new_blank(0)
    }
}

impl<const PAYLOAD_SIZE: usize> Default for HeapPayload<PAYLOAD_SIZE> {
    /// A blank payload with the placeholder index zero.
    fn default() -> (r: Self)
        ensures
            r.idx == 0,
    {
        HeapPayload::new_blank(0)
    }
}

/// How many terminators a producer sends: one per consumer when consumers
/// share the payloads, one in all when each consumer sees every payload.
pub open spec fn terminations_for(name: RingName, consumer_threads: usize) -> nat {
    match distribution_of(name) {
        DistributionType::LoadBalancer => consumer_threads as nat,
        DistributionType::Broadcast => 1,
    }
}

/// The indices a producer with index offset `offset` sends: `offset + 1`
/// through `offset + sample_size`, then `terminations` terminators.
pub open spec fn stash_indices(offset: int, sample_size: nat, terminations: nat) -> Seq<usize> {
    Seq::new(sample_size, |i: int| (offset + 1 + i) as usize) + Seq::new(terminations, |i: int| TERMINATOR)
}

/// The payloads a producer still has to send.
pub enum PayloadIterator<P> {
    /// Every data payload built up front, stored last-first.
    PreGenerated { vec: Vec<P>, send_x_terminations: usize, sent_termination: usize },
    /// Data payloads built one at a time, for indices `next_idx..end_idx`.
    OnFly {
        next_idx: usize,
        end_idx: usize,
        byte_type: PayloadByteType,
        send_x_terminations: usize,
        sent_termination: usize,
    },
}

impl<P: AnyPayload> PayloadIterator<P> {
    pub open spec fn wf(&self) -> bool {
        match *self {
            PayloadIterator::PreGenerated { send_x_terminations, sent_termination, .. } =>
                sent_termination <= send_x_terminations,
            PayloadIterator::OnFly { next_idx, end_idx, send_x_terminations, sent_termination, .. } =>
                next_idx <= end_idx && sent_termination <= send_x_terminations,
        }
    }

    /// The indices still to come, in order.
    pub open spec fn remaining(&self) -> Seq<usize> {
        match *self {
            PayloadIterator::PreGenerated { vec, send_x_terminations, sent_termination } =>
                Seq::new(vec@.len(), |i: int| vec@[vec@.len() - 1 - i].index_of())
                    + Seq::new((send_x_terminations - sent_termination) as nat, |i: int| TERMINATOR),
            PayloadIterator::OnFly { next_idx, end_idx, send_x_terminations, sent_termination, .. } =>
                Seq::new((end_idx - next_idx) as nat, |i: int| (next_idx + i) as usize)
                    + Seq::new((send_x_terminations - sent_termination) as nat, |i: int| TERMINATOR),
        }
    }

    /// The next payload, or `None` once every payload and terminator is out.
    pub fn next(&mut self) -> (r: Option<P>)
        requires
            old(self).wf(),
        ensures
            final(self).wf(),
            old(self).remaining().len() == 0 ==> r is None && final(self).remaining() == old(self).remaining(),
            old(self).remaining().len() > 0 ==> {
                &&& r is Some
                &&& r->0.index_of() == old(self).remaining()[0]
                &&& final(self).remaining() == old(self).remaining().drop_first()
            },
    {
        let ghost before = self.remaining();
        let r = match self {
            PayloadIterator::PreGenerated { vec, send_x_terminations, sent_termination } => {
                if vec.len() > 0 {
                    vec.pop()
                } else if *sent_termination < *send_x_terminations {
                    *sent_termination = *sent_termination + 1;
                    Some(P::new_blank(TERMINATOR))
                } else {
                    None
                }
            },
            PayloadIterator::OnFly { next_idx, end_idx, byte_type, send_x_terminations, sent_termination } => {
                if *next_idx < *end_idx {
                    let idx = *next_idx;
                    *next_idx = idx + 1;
                    match byte_type {
                        PayloadByteType::Random => Some(P::new_random(idx)),
                        PayloadByteType::Blank => Some(P::new_blank(idx)),
                    }
                } else if *sent_termination < *send_x_terminations {
                    *sent_termination = *sent_termination + 1;
                    Some(P::new_blank(TERMINATOR))
                } else {
                    None
                }
            },
        };
        proof {
            if before.len() > 0 {
                assert(self.remaining() =~= before.drop_first());
            } else {
                assert(self.remaining() =~= before);
            }
        }
        r
    }
}

/// The payloads of one producer.
pub struct PayloadStash<P> {
    pub payloads: PayloadIterator<P>,
}

impl<P: AnyPayload> PayloadStash<P> {
    /// The stash of the producer whose indices start after `offset`: data
    /// payloads `offset + 1 ..= offset + sample_size`, then one terminator
    /// per consumer for load-balancing rings and a single one for
    /// broadcasting rings. With `gen_on_fly` the payloads are built as they
    /// are taken, else all of them up front.
    pub fn new(
        ring_name: RingName,
        consumer_threads: usize,
        offset: usize,
        sample_size: usize,
        byte_type: PayloadByteType,
        gen_on_fly: bool,
    ) -> (r: Self)
        requires
            offset + sample_size < usize::MAX,
        ensures
            r.payloads.wf(),
            r.payloads.remaining() == stash_indices(
                offset as int,
                sample_size as nat,
                terminations_for(ring_name, consumer_threads),
            ),
    {
        let send_x_terminations = match ring_name.get_distribution_type() {
            DistributionType::LoadBalancer => consumer_threads,
            DistributionType::Broadcast => 1,
        };
        if gen_on_fly {
            let r = PayloadStash {
                payloads: PayloadIterator::OnFly {
                    next_idx: offset + 1,
                    end_idx: offset + 1 + sample_size,
                    byte_type,
                    send_x_terminations,
                    sent_termination: 0,
                },
            };
            assert(r.payloads.remaining() =~= stash_indices(
                offset as int,
                sample_size as nat,
                terminations_for(ring_name, consumer_threads),
            ));
            r
        } else {
            // Built last-first, so that popping from the end yields them in order.
            let mut vec: Vec<P> = Vec::new();
            let mut k: usize = sample_size;
            while k > 0
                invariant
                    k <= sample_size,
                    offset + sample_size < usize::MAX,
                    vec@.len() == sample_size - k,
                    forall|j: int| 0 <= j < vec@.len() ==> (#[trigger] vec@[j]).index_of() == offset + sample_size - j,
                decreases k,
            {
                let idx = offset + k;
                let p = match byte_type {
                    PayloadByteType::Random => P::new_random(idx),
                    PayloadByteType::Blank => P::new_blank(idx),
                };
                vec.push(p);
                k = k - 1;
            }
            let r = PayloadStash {
                payloads: PayloadIterator::PreGenerated { vec, send_x_terminations, sent_termination: 0 },
            };
            assert(r.payloads.remaining() =~= stash_indices(
                offset as int,
                sample_size as nat,
                terminations_for(ring_name, consumer_threads),
            ));
            r
        }
    }
}

} // verus!
