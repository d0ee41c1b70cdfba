//! What one consumer records: a bounded set of `(index, latency)` samples,
//! its terminator count, and the summary computed from them at the end.
use vstd::prelude::*;
use crate::clock::{now, nanos_since, saturate_nanos};
use crate::payload::TERMINATOR;
use crate::rings::RingName;

verus! {

/// The latencies of the samples with a non-zero index, in order.
pub open spec fn latencies(s: Seq<(usize, u64)>) -> Seq<u64>
    decreases s.len(),
{
    if s.len() == 0 {
        Seq::empty()
    } else if s.last().0 != 0 {
        latencies(s.drop_last()).push(s.last().1)
    } else {
        latencies(s.drop_last())
    }
}

pub open spec fn sum_of(s: Seq<u64>) -> int
    decreases s.len(),
{
    if s.len() == 0 { 0 } else { sum_of(s.drop_last()) + s.last() }
}

pub open spec fn ascending(s: Seq<u64>) -> bool {
    forall|i: int, j: int| 0 <= i <= j < s.len() ==> s[i] <= s[j]
}

/// The distinct indices in `1..=max_index` among the samples.
pub open spec fn received_set(s: Seq<(usize, u64)>, max_index: usize) -> Set<usize>
    decreases s.len(),
{
    if s.len() == 0 {
        Set::empty()
    } else if 0 < s.last().0 <= max_index {
        received_set(s.drop_last(), max_index).insert(s.last().0)
    } else {
        received_set(s.drop_last(), max_index)
    }
}

/// How many samples carry an index in `1..=max_index`.
pub open spec fn in_range_count(s: Seq<(usize, u64)>, max_index: usize) -> nat
    decreases s.len(),
{
    if s.len() == 0 {
        0
    } else if 0 < s.last().0 <= max_index {
        in_range_count(s.drop_last(), max_index) + 1
    } else {
        in_range_count(s.drop_last(), max_index)
    }
}

proof fn lemma_received_set_finite(s: Seq<(usize, u64)>, max_index: usize)
    ensures
        received_set(s, max_index).finite(),
        received_set(s, max_index).len() <= in_range_count(s, max_index),
    decreases s.len(),
{
    if s.len() > 0 {
        lemma_received_set_finite(s.drop_last(), max_index);
    }
}

/// Latency statistics over the recorded samples, in nanoseconds; all zero
/// when nothing was recorded.
#[derive(Debug, Clone, Copy, PartialEq, Eq, Structural)]
pub struct LatencyStats {
    pub min: u64,
    pub max: u64,
    pub median: u64,
    pub avg: u64,
}

/// Whether `r` gives the minimum, maximum, median (the element at position
/// `n / 2` in ascending order) and truncated mean of `lat`.
pub open spec fn stats_of(lat: Seq<u64>, r: LatencyStats) -> bool {
    if lat.len() == 0 {
        r == LatencyStats { min: 0, max: 0, median: 0, avg: 0 }
    } else {
        &&& exists|s: Seq<u64>|
            #![trigger ascending(s)]
            ascending(s) && s.to_multiset() == lat.to_multiset() && r.min == s[0] && r.max == s[s.len()
                - 1] && r.median == s[(s.len() / 2) as int]
        &&& r.avg == sum_of(lat) / (lat.len() as int)
    }
}

/// Relies on `slice::sort_unstable`: the values in ascending order, the
/// same values as before.
#[verifier::external_body]
fn sort_ascending(v: &mut Vec<u64>)
    ensures
        ascending(final(v)@),
        final(v)@.to_multiset() == old(v)@.to_multiset(),
{
    v.sort_unstable();
}

/// The latency statistics of the samples whose index is non-zero.
pub fn latency_stats(samples: &Vec<(usize, u64)>) -> (r: LatencyStats)
    ensures
        stats_of(latencies(samples@), r),
{
    let mut lat: Vec<u64> = Vec::new();
    let mut sum: u128 = 0;
    let mut i: usize = 0;
    while i < samples.len()
        invariant
            i <= samples@.len(),
            lat@ == latencies(samples@.subrange(0, i as int)),
            sum == sum_of(lat@),
            lat@.len() <= i,
            forall|k: int| 0 <= k < lat@.len() ==> lat@[k] <= u64::MAX,
            sum <= lat@.len() * (u64::MAX as int),
        decreases samples@.len() - i,
    {
        let (idx, elapsed) = samples[i];
        proof {
            assert(samples@.subrange(0, i + 1).drop_last() == samples@.subrange(0, i as int));
        }
        if idx != 0 {
            proof {
                assert(sum + elapsed <= (lat@.len() + 1) * (u64::MAX as int)) by (nonlinear_arith)
                    requires
                        sum <= lat@.len() * (u64::MAX as int),
                        elapsed <= u64::MAX,
                ;
                assert(lat@.len() + 1 <= usize::MAX);
                assert((lat@.len() + 1) * (u64::MAX as int) <= u128::MAX) by (nonlinear_arith)
                    requires
                        lat@.len() + 1 <= usize::MAX,
                        usize::MAX <= u64::MAX,
                ;
            }
            sum = sum + elapsed as u128;
            lat.push(elapsed);
            proof {
                assert(lat@.drop_last() == latencies(samples@.subrange(0, i as int)));
            }
        }
        i = i + 1;
    }
    proof {
        assert(samples@.subrange(0, samples@.len() as int) == samples@);
    }
    let n = lat.len();
    if n == 0 {
        return LatencyStats { min: 0, max: 0, median: 0, avg: 0 };
    }
    let ghost unsorted = lat@;
    sort_ascending(&mut lat);
    proof {
        unsorted.to_multiset_ensures();
        lat@.to_multiset_ensures();
        assert(lat@.len() == unsorted.len()) by {
            assert(lat@.to_multiset().len() == unsorted.to_multiset().len());
        }
    }
    let avg = sum / (n as u128);
    proof {
        assert(avg <= u64::MAX) by (nonlinear_arith)
            requires
                avg == sum / (n as u128),
                sum <= n * (u64::MAX as int),
                n > 0,
        ;
    }
    let r = LatencyStats { min: lat[0], max: lat[n - 1], median: lat[n / 2], avg: avg as u64 };
    assert(ascending(lat@) && lat@.to_multiset() == unsorted.to_multiset());
    r
}

/// Distinct and repeated indices among the samples, counting only indices
/// in `1..=max_index`.
#[derive(Debug, Clone, Copy, PartialEq, Eq, Structural)]
pub struct Receipt {
    pub received: usize,
    pub duplicates: usize,
}

pub fn count_receipt(samples: &Vec<(usize, u64)>, max_index: usize) -> (r: Receipt)
    requires
        max_index < usize::MAX,
    ensures
        r.received == received_set(samples@, max_index).len(),
        r.received + r.duplicates == in_range_count(samples@, max_index),
{
    let mut seen: Vec<bool> = Vec::new();
    let mut k: usize = 0;
    while k <= max_index
        invariant
            k <= max_index + 1,
            max_index < usize::MAX,
            seen@.len() == k,
            forall|j: int| 0 <= j < k ==> !(#[trigger] seen@[j]),
        decreases max_index + 1 - k,
    {
        seen.push(false);
        k = k + 1;
    }
    let mut received: usize = 0;
    let mut duplicates: usize = 0;
    let mut i: usize = 0;
    while i < samples.len()
        invariant
            i <= samples@.len(),
            seen@.len() == max_index + 1,
            forall|j: int|
                0 <= j <= max_index ==> (#[trigger] seen@[j] <==> received_set(
                    samples@.subrange(0, i as int),
                    max_index,
                ).contains(j as usize)),
            received == received_set(samples@.subrange(0, i as int), max_index).len(),
            received + duplicates == in_range_count(samples@.subrange(0, i as int), max_index),
            in_range_count(samples@.subrange(0, i as int), max_index) <= i,
        decreases samples@.len() - i,
    {
        let idx = samples[i].0;
        let ghost prev = samples@.subrange(0, i as int);
        proof {
            assert(samples@.subrange(0, i + 1).drop_last() == prev);
            lemma_received_set_finite(prev, max_index);
        }
        if 0 < idx && idx <= max_index {
            if seen[idx] {
                duplicates = duplicates + 1;
            } else {
                seen.set(idx, true);
                received = received + 1;
                proof {
                    assert(!received_set(prev, max_index).contains(idx));
                }
            }
            proof {
                let now = samples@.subrange(0, i + 1);
                assert forall|j: int| 0 <= j <= max_index implies (#[trigger] seen@[j] <==> received_set(
                    now,
                    max_index,
                ).contains(j as usize)) by {
                    if j != idx {
                        assert(received_set(prev, max_index).contains(j as usize) == received_set(now, max_index).contains(j as usize));
                    }
                }
            }
        }
        i = i + 1;
    }
    proof {
        assert(samples@.subrange(0, samples@.len() as int) == samples@);
    }
    Receipt { received, duplicates }
}

/// The measurements of one consumer.
pub struct IndividualMeasurements {
    pub ring_name: RingName,
    pub ring_size: usize,
    pub consumer_id: usize,
    pub producer_threads: usize,
    pub consumer_threads: usize,
    pub sample_size: usize,
    pub start_time: minstant::Instant,
    /// At most this many samples are kept.
    pub capacity: usize,
    pub samples: Vec<(usize, u64)>,
    /// How many data payloads have been counted.
    pub sample_seq: usize,
    /// The count at which the next sample is kept.
    pub next_sample: usize,
    /// One payload in every `sample_rate` is kept.
    pub sample_rate: usize,
    pub termination_count: usize,
    pub total_elapsed_nanos: u64,
}

/// How many samples a consumer keeps: `percentage` percent of every index
/// that the producers send, rounded up.
pub open spec fn capacity_for(sample_size: int, producer_threads: int, percentage: int) -> int {
    (sample_size * producer_threads * percentage + 99) / 100
}

impl IndividualMeasurements {
    pub open spec fn wf(&self) -> bool {
        &&& self.samples@.len() <= self.capacity
        &&& self.sample_rate >= 1
        &&& self.sample_seq < self.next_sample
        &&& self.next_sample <= self.sample_seq + self.sample_rate
    }

    /// An empty record for consumer `consumer_id` that keeps one payload in
    /// every `100 / percentage`, up to its capacity.
    pub fn new(
        ring_name: RingName,
        ring_size: usize,
        consumer_id: usize,
        consumer_threads: usize,
        producer_threads: usize,
        sample_size: usize,
        percentage: usize,
    ) -> (r: Self)
        requires
            1 <= percentage <= 100,
            sample_size * producer_threads * 100 + 99 <= usize::MAX,
        ensures
            r.wf(),
            r.capacity == capacity_for(sample_size as int, producer_threads as int, percentage as int),
            r.sample_rate as int == 100int / (percentage as int),
            r.samples@.len() == 0,
            r.termination_count == 0,
            r.ring_name == ring_name,
            r.ring_size == ring_size,
            r.consumer_id == consumer_id,
            r.consumer_threads == consumer_threads,
            r.producer_threads == producer_threads,
            r.sample_size == sample_size,
            r.sample_seq == 0,
            r.next_sample == r.sample_rate,
            r.total_elapsed_nanos == 0,
    {
        proof {
            assert(sample_size * producer_threads * percentage <= sample_size * producer_threads * 100) by (nonlinear_arith)
                requires
                    percentage <= 100,
            ;
        }
        let capacity = (sample_size * producer_threads * percentage + 99) / 100;
        let sample_rate = 100 / percentage;
        proof {
            let rate = sample_rate as int;
            let pct = percentage as int;
            assert(rate >= 1) by (nonlinear_arith)
                requires
                    rate == 100int / pct,
                    1 <= pct <= 100,
            ;
        }
        IndividualMeasurements {
            ring_name,
            ring_size,
            consumer_id,
            producer_threads,
            consumer_threads,
            sample_size,
            start_time: now(),
            capacity,
            samples: Vec::new(),
            sample_seq: 0,
            next_sample: sample_rate,
            sample_rate,
            termination_count: 0,
            total_elapsed_nanos: 0,
        }
    }

    /// Starts the consumer's clock.
    pub fn start(&mut self)
        ensures
            final(self).samples == old(self).samples,
            final(self).termination_count == old(self).termination_count,
    {
        self.start_time = now();
    }

    /// Records one popped payload. A terminator raises the terminator count
    /// and ends the run once one has come from every producer. A data payload
    /// is kept when it is the next in the sampling stride; the run also ends
    /// once the samples are full. Returns whether the consumer is done.
    pub fn add(&mut self, sample: (usize, u64)) -> (done: bool)
        requires
            old(self).wf(),
        ensures
            final(self).wf(),
            final(self).capacity == old(self).capacity,
            final(self).producer_threads == old(self).producer_threads,
            final(self).sample_rate == old(self).sample_rate,
            sample.0 == TERMINATOR ==> {
                &&& final(self).termination_count == if old(self).termination_count < usize::MAX {
                    old(self).termination_count + 1
                } else {
                    old(self).termination_count as int
                }
                &&& final(self).samples == old(self).samples
                &&& final(self).sample_seq == old(self).sample_seq
                &&& final(self).next_sample == old(self).next_sample
                &&& done == (final(self).termination_count >= old(self).producer_threads)
            },
            sample.0 != TERMINATOR ==> final(self).termination_count == old(self).termination_count,
            sample.0 != TERMINATOR && old(self).samples@.len() >= old(self).capacity ==> done
                && *final(self) == *old(self),
            sample.0 != TERMINATOR && old(self).samples@.len() < old(self).capacity ==> {
                &&& !done
                &&& old(self).next_sample == old(self).sample_seq + 1 ==> {
                    &&& final(self).samples@ == old(self).samples@.push(sample)
                    &&& old(self).sample_seq + 1 + old(self).sample_rate <= usize::MAX ==> {
                        &&& final(self).sample_seq == old(self).sample_seq + 1
                        &&& final(self).next_sample == old(self).sample_seq + 1 + old(self).sample_rate
                    }
                    &&& old(self).sample_seq + 1 + old(self).sample_rate > usize::MAX ==> {
                        &&& final(self).sample_seq == 0
                        &&& final(self).next_sample == old(self).sample_rate
                    }
                }
                &&& old(self).next_sample != old(self).sample_seq + 1 ==> {
                    &&& final(self).samples == old(self).samples
                    &&& final(self).sample_seq == old(self).sample_seq + 1
                    &&& final(self).next_sample == old(self).next_sample
                }
            },
    {
        let (idx, _elapsed) = sample;
        if idx == TERMINATOR {
            if self.termination_count < usize::MAX {
                self.termination_count = self.termination_count + 1;
            }
            return self.termination_count >= self.producer_threads;
        }
        if self.samples.len() >= self.capacity {
            return true;
        }
        self.sample_seq = self.sample_seq + 1;
        if self.sample_seq == self.next_sample {
            self.samples.push(sample);
            if self.sample_seq <= usize::MAX - self.sample_rate {
                self.next_sample = self.sample_seq + self.sample_rate;
            } else {
                self.sample_seq = 0;
                self.next_sample = self.sample_rate;
            }
        }
        false
    }

    /// Stops the consumer's clock.
    pub fn stop(&mut self)
        ensures
            final(self).samples == old(self).samples,
            final(self).termination_count == old(self).termination_count,
            final(self).start_time == old(self).start_time,
    {
        self.total_elapsed_nanos = saturate_nanos(nanos_since(&self.start_time));
    }

    /// The largest index any producer sends.
    pub open spec fn max_index(&self) -> int {
        self.sample_size * self.producer_threads
    }

    /// The integer part of the summary: latency statistics, and how many of
    /// the expected samples arrived, were lost, or arrived more than once.
    pub fn summarize(&self) -> (r: Summary)
        requires
            self.wf(),
            self.sample_size * self.producer_threads < usize::MAX,
        ensures
            stats_of(latencies(self.samples@), r.latency),
            r.received == received_set(self.samples@, (self.sample_size * self.producer_threads) as usize).len(),
            r.received + r.duplicates == in_range_count(self.samples@, (self.sample_size * self.producer_threads) as usize),
            r.lost == if r.received <= self.capacity { self.capacity - r.received } else { 0 },
            r.capacity == self.capacity,
            r.total_elapsed_nanos == self.total_elapsed_nanos,
    {
        let latency = latency_stats(&self.samples);
        let receipt = count_receipt(&self.samples, self.sample_size * self.producer_threads);
        let lost = if receipt.received <= self.capacity { self.capacity - receipt.received } else { 0 };
        Summary {
            latency,
            received: receipt.received,
            duplicates: receipt.duplicates,
            lost,
            capacity: self.capacity,
            total_elapsed_nanos: self.total_elapsed_nanos,
        }
    }
}

/// What a consumer reports, in integers: loss is `lost / capacity` and
/// duplication `duplicates / capacity`.
#[derive(Debug, Clone, Copy, PartialEq, Eq, Structural)]
pub struct Summary {
    pub latency: LatencyStats,
    pub received: usize,
    pub duplicates: usize,
    pub lost: usize,
    pub capacity: usize,
    pub total_elapsed_nanos: u64,
}

} // verus!
