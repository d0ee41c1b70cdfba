use ring_lab::measurements::individual::IndividualMeasurements;
use ring_lab::payload::{AnyPayload, CopyablePayload, PayloadByteType, PayloadStash};
use ring_lab::rings::indiv_spsc_group::MPSCIndivSPSCGroup;
use ring_lab::rings::mpmc::{MPMCBroadcaster, MPMCLoadBalancer};
use ring_lab::rings::RingName;

type Small = CopyablePayload<8>;
const SAMPLES: usize = 50;

fn stashes(name: RingName, producers: usize, consumers: usize) -> Vec<PayloadStash<Small>> {
    (0..producers)
        .map(|p| PayloadStash::new(name, consumers, p * SAMPLES, SAMPLES, PayloadByteType::Blank, p % 2 == 0))
        .collect()
}

fn measurements(name: RingName, producers: usize, consumers: usize) -> Vec<IndividualMeasurements> {
    (0..consumers)
        .map(|c| IndividualMeasurements::new(name, 4, c, consumers, producers, SAMPLES, 100))
        .collect()
}

#[test]
fn load_balancer_run_ends_with_every_terminator_seen() {
    let name = RingName::MPMCLoadBalancer;
    let (mut ring, tx, rx) = MPMCLoadBalancer::<Small>::new(4);
    let mut stash = stashes(name, 2, 2);
    let mut pending: Vec<Option<Small>> = vec![None, None];
    let mut ms = measurements(name, 2, 2);
    let mut done = [false, false];
    let mut tails = [0usize; 2];
    let mut round = 0usize;
    while !done.iter().all(|d| *d) {
        round += 1;
        assert!(round < 10_000);
        for p in 0..2 {
            let item = pending[p].take().or_else(|| stash[p].payloads.next());
            if let Some(mut item) = item {
                item.update_timestamp();
                if let Err(back) = tx.push(&mut ring, p, item) {
                    pending[p] = Some(back);
                }
            }
        }
        for c in 0..2 {
            if !done[c] {
                if let Some(payload) = rx.pop(&mut ring, &mut tails[c]) {
                    done[c] = ms[c].add(payload.collapse_timestamp());
                }
            }
        }
    }
    let received: usize = ms.iter().map(|m| m.samples.len()).sum();
    assert_eq!(received, 2 * SAMPLES);
    for m in &ms {
        assert_eq!(m.termination_count, 2);
    }
}

#[test]
fn broadcast_run_ends_with_one_terminator_per_producer() {
    let name = RingName::MPMCBroadcaster;
    let (mut ring, tx, rx0) = MPMCBroadcaster::<Small>::new(4);
    let rx1 = rx0.clone_reader(&mut ring);
    let readers = [rx0, rx1];
    let mut stash = stashes(name, 2, 2);
    let mut pending: Vec<Option<Small>> = vec![None, None];
    let mut ms = measurements(name, 2, 2);
    let mut done = [false, false];
    let mut tails = [0usize; 2];
    let mut round = 0usize;
    while !done.iter().all(|d| *d) {
        round += 1;
        assert!(round < 10_000);
        for p in 0..2 {
            let item = pending[p].take().or_else(|| stash[p].payloads.next());
            if let Some(item) = item {
                if let Err(back) = tx.push(&mut ring, p, item) {
                    pending[p] = Some(back);
                }
            }
        }
        for c in 0..2 {
            if !done[c] {
                if let Some(payload) = readers[c].pop(&mut ring, &mut tails[c]) {
                    done[c] = ms[c].add(payload.collapse_timestamp());
                }
            }
        }
    }
    for m in &ms {
        assert_eq!(m.termination_count, 2);
        assert_eq!(m.samples.len(), 2 * SAMPLES);
        let s = m.summarize();
        assert_eq!(s.lost, 0);
        assert_eq!(s.duplicates, 0);
    }
}

#[test]
fn per_producer_group_run_delivers_every_index() {
    let name = RingName::MPSCIndivSPSCGroup;
    let (mut group, tx, rx) = MPSCIndivSPSCGroup::<Small>::new(3, 4);
    let mut stash = stashes(name, 3, 1);
    let mut pending: Vec<Option<Small>> = vec![None, None, None];
    let mut ms = measurements(name, 3, 1);
    let mut done = false;
    let mut tail = 0usize;
    let mut round = 0usize;
    while !done {
        round += 1;
        assert!(round < 10_000);
        for p in 0..3 {
            let item = pending[p].take().or_else(|| stash[p].payloads.next());
            if let Some(item) = item {
                if let Err(back) = tx.push(&mut group, p, item) {
                    pending[p] = Some(back);
                }
            }
        }
        if let Some(payload) = rx.pop(&mut group, &mut tail) {
            done = ms[0].add(payload.collapse_timestamp());
        }
    }
    let s = ms[0].summarize();
    assert_eq!(s.received, 3 * SAMPLES);
    assert_eq!(s.lost, 0);
    assert_eq!(ms[0].termination_count, 3);
}
