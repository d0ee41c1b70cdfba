use ring_lab::measurements::individual::IndividualMeasurements;
use ring_lab::payload::{AnyPayload, CopyablePayload, HeapPayload, PayloadByteType, PayloadStash, TERMINATOR};
use ring_lab::rings::indiv_spmc_copy::MPMCBroadcasterUnsafeIndivSPMCCopy;
use ring_lab::rings::indiv_spsc_group::MPSCIndivSPSCGroup;
use ring_lab::rings::global_tail_lossy::MPSCGlobalTailLossy;
use ring_lab::rings::mpmc::{MPMCBroadcaster, MPMCLoadBalancer};
use ring_lab::rings::mpsc::MPSCLocalTailLossy;
use ring_lab::rings::spmc::{SPMCBroadcasterUnsafeLocalTails, SPMCLoadBalancerCopy};
use ring_lab::rings::spsc::{SPSCFullLockLocalTailCopy, SPSCSafeSkipping, SPSCSlotLockLocalTailCopy};
use ring_lab::rings::{ChannelType, DistributionType, RingName};
use ring_lab::utils::CL;

type Small = CopyablePayload<8>;

fn blank(idx: usize) -> Small {
    Small::new_blank(idx)
}

fn drain<P: AnyPayload>(stash: &mut PayloadStash<P>) -> Vec<usize> {
    let mut out = Vec::new();
    while let Some(p) = stash.payloads.next() {
        out.push(p.collapse_timestamp().0);
    }
    out
}

#[test]
fn empty_pops_make_no_progress() {
    let (mut ring, tx, rx) = SPSCSafeSkipping::<Small>::new(4);
    let mut local_tail = 0usize;
    for _ in 0..5 {
        assert!(rx.pop(&mut ring, &mut local_tail).is_none());
        assert_eq!(local_tail, 0);
    }
    tx.push(&mut ring, 0, blank(1));
    assert_eq!(rx.pop(&mut ring, &mut local_tail).map(|p| p.idx), Some(1));
    for _ in 0..5 {
        assert!(rx.pop(&mut ring, &mut local_tail).is_none());
        assert_eq!(local_tail, 1);
    }
    let (mut lb, _tx, lrx) = MPMCLoadBalancer::<Small>::new(4);
    let mut t = 7usize;
    assert!(lrx.pop(&mut lb, &mut t).is_none());
    assert_eq!(t, 7);
    assert_eq!(lb.inner.tail, 0);
}

#[test]
fn single_slot_ring_alternates() {
    let (mut ring, tx, rx) = MPMCLoadBalancer::<Small>::new(1);
    let mut t = 0usize;
    for i in 1..=5usize {
        assert!(tx.push(&mut ring, 0, blank(i)).is_ok());
        assert_eq!(tx.push(&mut ring, 0, blank(100 + i)).map_err(|p| p.idx), Err(100 + i));
        assert!(ring.inner.head - ring.inner.tail <= 1);
        assert_eq!(rx.pop(&mut ring, &mut t).map(|p| p.idx), Some(i));
        assert!(rx.pop(&mut ring, &mut t).is_none());
    }
    let (mut dual, dtx, drx) = SPMCLoadBalancerCopy::<Small>::new(1);
    assert!(dtx.push(&mut dual, 0, blank(1)).is_ok());
    assert!(dtx.push(&mut dual, 0, blank(2)).is_err());
    assert_eq!(drx.pop(&mut dual, &mut t).map(|p| p.idx), Some(1));
    assert!(dtx.push(&mut dual, 0, blank(2)).is_ok());
}

#[test]
fn late_broadcast_reader_starts_at_next_push() {
    let (mut ring, tx, rx0) = MPMCBroadcaster::<Small>::new(8);
    let mut t0 = 0usize;
    for i in 1..=5 {
        assert!(tx.push(&mut ring, 0, blank(i)).is_ok());
    }
    let late = rx0.clone_reader(&mut ring);
    assert!(tx.push(&mut ring, 1, blank(6)).is_ok());
    let mut t1 = 0usize;
    assert_eq!(late.pop(&mut ring, &mut t1).map(|p| p.idx), Some(6));
    assert_eq!(t1, 6);
    assert!(late.pop(&mut ring, &mut t1).is_none());
    assert_eq!(rx0.pop(&mut ring, &mut t0).map(|p| p.idx), Some(1));
}

#[test]
fn broadcast_writer_waits_for_slowest_reader_until_it_leaves() {
    let (mut ring, tx, rx0) = MPMCBroadcaster::<Small>::new(2);
    let rx1 = rx0.clone_reader(&mut ring);
    let mut t = 0usize;
    assert!(tx.push(&mut ring, 0, blank(1)).is_ok());
    assert!(tx.push(&mut ring, 0, blank(2)).is_ok());
    assert!(tx.push(&mut ring, 0, blank(3)).is_err());
    assert_eq!(rx0.pop(&mut ring, &mut t).map(|p| p.idx), Some(1));
    assert!(tx.push(&mut ring, 0, blank(3)).is_err());
    rx1.leave(&mut ring);
    assert!(tx.push(&mut ring, 0, blank(3)).is_ok());
}

#[test]
fn consumer_stops_after_one_terminator_per_producer() {
    let mut m = IndividualMeasurements::new(RingName::MPMCLoadBalancer, 4, 0, 2, 3, 10, 100);
    assert!(!m.add((5, 10)));
    assert!(!m.add((TERMINATOR, 0)));
    assert!(!m.add((TERMINATOR, 0)));
    assert!(m.add((TERMINATOR, 0)));
    assert_eq!(m.termination_count, 3);
    assert_eq!(m.samples.len(), 1);
}

#[test]
fn measurements_sample_every_stride_up_to_capacity() {
    let mut m = IndividualMeasurements::new(RingName::SPSCSafeSkipping, 4, 0, 1, 1, 10, 50);
    assert_eq!(m.capacity, 5);
    assert_eq!(m.sample_rate, 2);
    for i in 1..=10usize {
        assert!(!m.add((i, i as u64 * 10)));
    }
    let kept: Vec<usize> = m.samples.iter().map(|s| s.0).collect();
    assert_eq!(kept, vec![2, 4, 6, 8, 10]);
    assert!(m.add((11, 0)));
    let s = m.summarize();
    assert_eq!(s.received, 5);
    assert_eq!(s.lost, 0);
    assert_eq!(s.latency.min, 20);
    assert_eq!(s.latency.max, 100);
    assert_eq!(s.latency.median, 60);
    assert_eq!(s.latency.avg, 60);
}

#[test]
fn loss_counts_missing_samples() {
    let mut m = IndividualMeasurements::new(RingName::SPSCSafeSkipping, 2, 0, 1, 1, 10, 100);
    for i in [1usize, 2, 5, 9] {
        m.add((i, 1));
    }
    let s = m.summarize();
    assert_eq!(s.capacity, 10);
    assert_eq!(s.received, 4);
    assert_eq!(s.lost, 6);
    assert_eq!(s.duplicates, 0);
}

#[test]
fn stash_sends_indices_then_terminators() {
    let mut lb = PayloadStash::<Small>::new(RingName::MPMCLoadBalancer, 3, 100, 4, PayloadByteType::Blank, false);
    assert_eq!(drain(&mut lb), vec![101, 102, 103, 104, TERMINATOR, TERMINATOR, TERMINATOR]);
    let mut bc = PayloadStash::<Small>::new(RingName::SPMCBroadcaster, 3, 0, 3, PayloadByteType::Random, true);
    assert_eq!(drain(&mut bc), vec![1, 2, 3, TERMINATOR]);
    assert!(bc.payloads.next().is_none());
    let mut heap = PayloadStash::<HeapPayload<16>>::new(RingName::SPSCSafeSkipping, 1, 5, 2, PayloadByteType::Random, false);
    assert_eq!(drain(&mut heap), vec![6, 7, TERMINATOR]);
}

#[test]
fn timestamps_are_stamped_from_the_clock() {
    let mut p = Small::new_blank(3);
    p.update_timestamp();
    let (idx, elapsed) = p.collapse_timestamp();
    assert_eq!(idx, 3);
    assert!(elapsed < 60_000_000_000);
    let start = std::time::Instant::now();
    while start.elapsed().as_millis() < 5 {
        std::hint::spin_loop();
    }
    let (_, later) = p.collapse_timestamp();
    assert!(later >= 5_000_000);
    assert!(Small::copyable());
    assert!(!HeapPayload::<8>::copyable());
    assert_eq!(Small::payload_size(), 8);
}

#[test]
fn ring_names_classify() {
    assert!(matches!(RingName::MPSCIndivSPSCGroup.get_channel_type(), ChannelType::MPSC));
    assert!(matches!(RingName::SPMCLoadBalancerCopy.get_distribution_type(), DistributionType::LoadBalancer));
    assert!(matches!(RingName::SPSCSafeSkipping.get_distribution_type(), DistributionType::Broadcast));
    assert!(matches!(RingName::MPMCBroadcaster.get_distribution_type(), DistributionType::Broadcast));
    assert_eq!(RingName::SPSCSafeSkippingNoBoxPtr.name(), "SPSCSafeSkippingNoBoxPtr");
    assert_eq!(ChannelType::SPMC.name(), "SPMC");
    assert_eq!(CL::Teal.get(), "\x1b[38;5;14m");
    assert_eq!(CL::End.get(), "\x1b[37m");
}

#[test]
fn overwriting_rings_let_a_lapped_reader_copy_later_payloads() {
    let (mut ring, tx, rx) = SPSCSlotLockLocalTailCopy::<Small>::new(2);
    let mut t = 0usize;
    for i in 1..=5 {
        tx.push(&mut ring, 0, blank(i));
    }
    // Tail 0 is two laps behind: its slot last held cursor 4.
    assert_eq!(rx.pop(&ring, &mut t).map(|p| p.idx), Some(5));
    assert_eq!(t, 1);
    assert_eq!(rx.pop(&ring, &mut t).map(|p| p.idx), Some(4));
    let (mut full, ftx, frx) = SPSCFullLockLocalTailCopy::<Small>::new(4);
    let mut ft = 0usize;
    ftx.push(&mut full, 0, blank(1));
    assert_eq!(frx.pop(&full, &mut ft).map(|p| p.idx), Some(1));
    assert!(frx.pop(&full, &mut ft).is_none());
    let (mut b, btx, brx) = SPMCBroadcasterUnsafeLocalTails::<Small>::new(4);
    btx.push(&mut b, 0, blank(9));
    let mut a = 0usize;
    let mut c = 0usize;
    assert_eq!(brx.pop(&b, &mut a).map(|p| p.idx), Some(9));
    assert_eq!(brx.pop(&b, &mut c).map(|p| p.idx), Some(9));
}

#[test]
fn lossy_mpsc_rings_gate_on_unread_slots() {
    let (mut ring, tx, rx) = MPSCLocalTailLossy::<Small>::new(2);
    let mut t = 0usize;
    assert!(tx.push(&mut ring, 0, blank(1)).is_ok());
    assert!(tx.push(&mut ring, 1, blank(2)).is_ok());
    assert!(tx.push(&mut ring, 0, blank(3)).is_err());
    assert_eq!(rx.pop(&mut ring, &mut t).map(|p| p.idx), Some(1));
    assert!(tx.push(&mut ring, 0, blank(3)).is_ok());
    let (mut g, gtx, grx) = MPSCGlobalTailLossy::<Small>::new(2);
    let mut unused = 0usize;
    assert!(gtx.push(&mut g, 0, blank(1)).is_ok());
    assert_eq!(grx.pop(&mut g, &mut unused).map(|p| p.idx), Some(1));
    assert_eq!(g.tail, 1);
    assert!(grx.pop(&mut g, &mut unused).is_none());
}

#[test]
fn per_producer_rings_are_read_in_producer_order() {
    let (mut g, tx, rx) = MPSCIndivSPSCGroup::<Small>::new(3, 2);
    let mut t = 0usize;
    assert!(tx.push(&mut g, 2, blank(30)).is_ok());
    assert!(tx.push(&mut g, 1, blank(20)).is_ok());
    assert!(tx.push(&mut g, 1, blank(21)).is_ok());
    assert!(tx.push(&mut g, 1, blank(22)).is_err());
    let order: Vec<usize> = std::iter::from_fn(|| rx.pop(&mut g, &mut t).map(|p| p.idx)).collect();
    assert_eq!(order, vec![20, 21, 30]);

    let (mut b, btx, mut brx) = MPMCBroadcasterUnsafeIndivSPMCCopy::<Small>::new(2, 4);
    btx.push(&mut b, 1, blank(11));
    let mut late = brx.clone_reader(&b);
    btx.push(&mut b, 0, blank(1));
    assert_eq!(brx.pop(&b, &mut t).map(|p| p.idx), Some(1));
    assert_eq!(brx.pop(&b, &mut t).map(|p| p.idx), Some(11));
    assert!(brx.pop(&b, &mut t).is_none());
    assert_eq!(late.pop(&b, &mut t).map(|p| p.idx), Some(1));
    assert!(late.pop(&b, &mut t).is_none());
}

#[test]
fn terminators_do_not_shift_the_sampling_stride() {
    let mut m = IndividualMeasurements::new(RingName::MPSCGlobalTail, 4, 1, 1, 3, 10, 50);
    assert_eq!((m.sample_seq, m.next_sample), (0, 2));
    assert_eq!((m.ring_size, m.consumer_id, m.consumer_threads), (4, 1, 1));
    assert!(!m.add((1, 5)));
    assert!(!m.add((TERMINATOR, 0)));
    assert_eq!((m.sample_seq, m.next_sample), (1, 2));
    assert!(!m.add((2, 7)));
    assert_eq!((m.sample_seq, m.next_sample), (2, 4));
    let kept: Vec<usize> = m.samples.iter().map(|s| s.0).collect();
    assert_eq!(kept, vec![2]);
}
