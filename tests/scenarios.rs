use ring_lab::measurements::individual::{count_receipt, latency_stats, IndividualMeasurements};
use ring_lab::payload::{AnyPayload, CopyablePayload, TERMINATOR};
use ring_lab::rings::mpmc::MPMCLoadBalancer;
use ring_lab::rings::mpsc::MPSCGlobalTail;
use ring_lab::rings::spmc::SPMCBroadcaster;
use ring_lab::rings::spsc::{SPSCDualIndexFalseSharing, SPSCSafeSkipping};
use ring_lab::rings::RingName;

type Small = CopyablePayload<8>;

fn blank(idx: usize) -> Small {
    Small::new_blank(idx)
}

#[test]
fn dual_index_delivers_everything_in_order() {
    let (mut ring, tx, rx) = SPSCDualIndexFalseSharing::<Small>::new(4);
    let mut to_send: Vec<usize> = (1..=8).collect();
    to_send.push(TERMINATOR);
    let mut received = Vec::new();
    let mut measurements = IndividualMeasurements::new(RingName::SPSCDualIndexFalseSharing, 4, 0, 1, 1, 8, 100);
    let mut local_tail = 0usize;
    let mut next = 0;
    let mut done = false;
    while !done {
        // The producer pushes until the ring is full, then the consumer drains one.
        while next < to_send.len() {
            match tx.push(&mut ring, 0, blank(to_send[next])) {
                Ok(()) => next += 1,
                Err(_) => break,
            }
            assert!(ring.inner.head - ring.inner.tail <= 4);
        }
        if let Some(p) = rx.pop(&mut ring, &mut local_tail) {
            assert!(p.data.iter().all(|b| *b == 0));
            received.push(p.idx);
            done = measurements.add((p.idx, 0));
        }
        assert!(ring.inner.head - ring.inner.tail <= 4);
    }
    let mut expected: Vec<usize> = (1..=8).collect();
    expected.push(TERMINATOR);
    assert_eq!(received, expected);
    let summary = measurements.summarize();
    assert_eq!(summary.lost, 0);
    assert_eq!(summary.duplicates, 0);
    assert_eq!(summary.received, 8);
}

#[test]
fn safe_skipping_slow_consumer_loses_but_never_duplicates() {
    let (mut ring, tx, rx) = SPSCSafeSkipping::<Small>::new(2);
    let mut local_tail = 0usize;
    let mut received = Vec::new();
    for i in 1..=1000usize {
        tx.push(&mut ring, 0, blank(i));
        // The consumer burns long enough for the producer to lap it.
        if i % 7 == 0 {
            if let Some(p) = rx.pop(&mut ring, &mut local_tail) {
                received.push(p.idx);
            }
        }
    }
    while let Some(p) = rx.pop(&mut ring, &mut local_tail) {
        received.push(p.idx);
    }
    let mut sorted = received.clone();
    sorted.sort();
    sorted.dedup();
    assert_eq!(sorted.len(), received.len());
    assert!(received.len() < 1000);
    assert!(received.windows(2).all(|w| w[0] < w[1]));
    // Every catch-up lands on the most recent payload of that moment.
    assert!(received.iter().all(|i| i % 7 == 0 || *i == 1000));
    let samples: Vec<(usize, u64)> = received.iter().map(|i| (*i, 0u64)).collect();
    let receipt = count_receipt(&samples, 1000);
    assert_eq!(receipt.duplicates, 0);
    assert!(receipt.received < 1000);
    let max_gap = received.windows(2).map(|w| w[1] - w[0]).max().unwrap();
    assert!(max_gap >= 2);
}

#[test]
fn mpmc_load_balancer_splits_without_duplicates() {
    let (mut ring, tx, rx) = MPMCLoadBalancer::<Small>::new(4);
    let mut stashes: Vec<Vec<usize>> = vec![
        (1..=100).chain(std::iter::repeat(TERMINATOR).take(2)).collect(),
        (100001..=100100).chain(std::iter::repeat(TERMINATOR).take(2)).collect(),
    ];
    for s in stashes.iter_mut() {
        s.reverse();
    }
    let mut got: Vec<Vec<usize>> = vec![Vec::new(), Vec::new()];
    let mut terminators = [0usize; 2];
    let mut tails = [0usize; 2];
    let mut turn = 0;
    while terminators.iter().any(|t| *t < 2) {
        for p in 0..2 {
            if let Some(idx) = stashes[p].pop() {
                if let Err(back) = tx.push(&mut ring, p, blank(idx)) {
                    stashes[p].push(back.idx);
                }
            }
        }
        let c = turn % 2;
        turn += 1;
        if terminators[c] >= 2 {
            continue;
        }
        if let Some(p) = rx.pop(&mut ring, &mut tails[c]) {
            if p.idx == TERMINATOR {
                terminators[c] += 1;
            } else {
                got[c].push(p.idx);
            }
        }
    }
    assert_eq!(terminators, [2, 2]);
    let mut all: Vec<usize> = got.concat();
    assert_eq!(all.len(), 200);
    all.sort();
    let mut expected: Vec<usize> = (1..=100).chain(100001..=100100).collect();
    expected.sort();
    assert_eq!(all, expected);
}

#[test]
fn spmc_broadcaster_every_consumer_sees_everything() {
    let (mut ring, tx, rx0) = SPMCBroadcaster::<Small>::new(8);
    let rx1 = rx0.clone_reader(&mut ring);
    let rx2 = rx0.clone_reader(&mut ring);
    let readers = [rx0, rx1, rx2];
    let mut to_send: Vec<usize> = (1..=50).collect();
    to_send.push(TERMINATOR);
    let mut next = 0;
    let mut got: Vec<Vec<usize>> = vec![Vec::new(), Vec::new(), Vec::new()];
    let mut tails = [0usize; 3];
    let mut pops = 0;
    let mut round = 0usize;
    while got.iter().any(|g| g.last() != Some(&TERMINATOR)) {
        round += 1;
        if next < to_send.len() && tx.push(&mut ring, 0, blank(to_send[next])).is_ok() {
            next += 1;
        }
        for c in 0..3 {
            if c == 2 && round % 3 != 0 {
                // The third consumer is slower.
                continue;
            }
            if got[c].last() == Some(&TERMINATOR) {
                continue;
            }
            if let Some(p) = readers[c].pop(&mut ring, &mut tails[c]) {
                got[c].push(p.idx);
                if p.idx != TERMINATOR {
                    pops += 1;
                }
            }
        }
        for c in 0..3 {
            let registered = ring.inner.tails[readers[c].id].expect("reader registered");
            assert!(ring.inner.head - registered <= 8);
        }
    }
    let mut expected: Vec<usize> = (1..=50).collect();
    expected.push(TERMINATOR);
    for g in got.iter() {
        assert_eq!(g, &expected);
    }
    assert_eq!(pops, 150);
}

#[test]
fn mpsc_global_tail_keeps_each_producers_order() {
    let (mut ring, tx, rx) = MPSCGlobalTail::<Small>::new(4);
    let mut stashes: Vec<Vec<usize>> = (0..3)
        .map(|p| {
            let mut v: Vec<usize> = (p * 1000 + 1..=p * 1000 + 10).collect();
            v.push(TERMINATOR);
            v.reverse();
            v
        })
        .collect();
    let mut local_tail = 0usize;
    let mut stream = Vec::new();
    let mut terminators = 0;
    while terminators < 3 {
        for p in 0..3 {
            if let Some(idx) = stashes[p].pop() {
                if let Err(back) = tx.push(&mut ring, p, blank(idx)) {
                    stashes[p].push(back.idx);
                }
            }
        }
        if let Some(p) = rx.pop(&mut ring, &mut local_tail) {
            if p.idx == TERMINATOR {
                terminators += 1;
            } else {
                stream.push(p.idx);
            }
        }
    }
    assert_eq!(stream.len(), 30);
    for p in 0..3 {
        let mine: Vec<usize> = stream.iter().copied().filter(|i| (i - 1) / 1000 == p).collect();
        let expected: Vec<usize> = (p * 1000 + 1..=p * 1000 + 10).collect();
        assert_eq!(mine, expected);
    }
}

#[test]
fn safe_skipping_lapped_reader_jumps_to_latest() {
    let (mut ring, tx, rx) = SPSCSafeSkipping::<Small>::new(4);
    let mut local_tail = 0usize;
    for i in 1..=4 {
        tx.push(&mut ring, 0, blank(i));
    }
    for i in 1..=4 {
        assert_eq!(rx.pop(&mut ring, &mut local_tail).map(|p| p.idx), Some(i));
    }
    for i in 5..=12 {
        tx.push(&mut ring, 0, blank(i));
    }
    let first = rx.pop(&mut ring, &mut local_tail).map(|p| p.idx);
    assert_eq!(first, Some(12));
    assert_ne!(first, Some(5));
    assert_eq!(local_tail, ring.inner.head);
}

#[test]
fn latency_stats_exact_values() {
    let samples = vec![(1usize, 30u64), (2, 10), (3, 20), (0, 999), (4, 40)];
    let s = latency_stats(&samples);
    assert_eq!(s.min, 10);
    assert_eq!(s.max, 40);
    assert_eq!(s.median, 30);
    assert_eq!(s.avg, 25);
    let empty: Vec<(usize, u64)> = Vec::new();
    let z = latency_stats(&empty);
    assert_eq!((z.min, z.max, z.median, z.avg), (0, 0, 0, 0));
}

#[test]
fn receipt_counts_distinct_and_repeated() {
    let samples = vec![(1usize, 0u64), (1, 0), (2, 0), (0, 0), (7, 0)];
    let r = count_receipt(&samples, 5);
    assert_eq!(r.received, 2);
    assert_eq!(r.duplicates, 1);
}

/// Drives one producer and one consumer through a fixed schedule: three
/// pushes, then one pop, repeated; returns what the consumer received.
fn single_pair_schedule(
    mut push: impl FnMut(usize) -> bool,
    mut pop: impl FnMut() -> Option<usize>,
) -> Vec<usize> {
    let mut received = Vec::new();
    let mut next = 1usize;
    while received.len() < 40 {
        for _ in 0..3 {
            if next <= 40 && push(next) {
                next += 1;
            }
        }
        if let Some(i) = pop() {
            received.push(i);
        }
    }
    received
}

#[test]
fn single_pair_matches_the_spsc_baseline() {
    let (mut base, btx, brx) = SPSCDualIndexFalseSharing::<Small>::new(4);
    let mut bt = 0usize;
    let base_seen = {
        let base = std::cell::RefCell::new(&mut base);
        single_pair_schedule(
            |i| btx.push(&mut base.borrow_mut(), 0, blank(i)).is_ok(),
            || brx.pop(&mut base.borrow_mut(), &mut bt).map(|p| p.idx),
        )
    };
    let (mut lb, ltx, lrx) = MPMCLoadBalancer::<Small>::new(4);
    let mut lt = 0usize;
    let lb_seen = {
        let lb = std::cell::RefCell::new(&mut lb);
        single_pair_schedule(
            |i| ltx.push(&mut lb.borrow_mut(), 0, blank(i)).is_ok(),
            || lrx.pop(&mut lb.borrow_mut(), &mut lt).map(|p| p.idx),
        )
    };
    let (mut gt, gtx, grx) = MPSCGlobalTail::<Small>::new(4);
    let mut g = 0usize;
    let gt_seen = {
        let gt = std::cell::RefCell::new(&mut gt);
        single_pair_schedule(
            |i| gtx.push(&mut gt.borrow_mut(), 0, blank(i)).is_ok(),
            || grx.pop(&mut gt.borrow_mut(), &mut g).map(|p| p.idx),
        )
    };
    let expected: Vec<usize> = (1..=40).collect();
    assert_eq!(base_seen, expected);
    assert_eq!(lb_seen, base_seen);
    assert_eq!(gt_seen, base_seen);
}
