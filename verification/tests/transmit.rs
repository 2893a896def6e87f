use nic_queues::buffers::{QueueError, TransmitBuffer};
use nic_queues::descriptor::SimTxDescriptor;
use nic_queues::tx_queue::TxQueue;

fn buf(paddr: u64) -> TransmitBuffer {
    TransmitBuffer { paddr, length: 600 }
}

fn queue_of(len: usize) -> TxQueue<SimTxDescriptor> {
    TxQueue::new(0, vec![SimTxDescriptor::empty(); len], 0).unwrap()
}

#[test]
fn tx_construction_rejects_empty_ring() {
    let r = TxQueue::<SimTxDescriptor>::new(0, Vec::new(), 0);
    assert_eq!(r.unwrap_err(), QueueError::MappingFailure);
}

#[test]
fn post_binds_buffer_and_control_bits() {
    let mut q = queue_of(4);
    q.post(buf(0x7000), false).unwrap();
    q.post(buf(0x8000), true).unwrap();
    assert_eq!(q.tx_cur, 2);
    assert_eq!(q.tx_descs[0].addr, 0x7000);
    assert_eq!(q.tx_descs[0].len, 600);
    assert!(!q.tx_descs[0].eof);
    assert!(!q.tx_descs[0].complete);
    assert_eq!(q.tx_descs[1].addr, 0x8000);
    assert!(q.tx_descs[1].eof);
}

#[test]
fn fifth_post_into_a_full_four_slot_ring_is_refused_until_reclaim() {
    let mut q = queue_of(4);
    for i in 0..4u64 {
        q.post(buf(0x1000 * (i + 1)), true).unwrap();
    }
    assert_eq!(q.tx_in_flight, 4);
    // a fifth post before any reclaim must not overwrite an in-flight slot
    let r = q.post(buf(0x5000), true);
    assert_eq!(r.unwrap_err(), QueueError::RingFull);
    assert_eq!(q.tx_descs[0].addr, 0x1000);
    // the device finishes slot 0; one reclaim pass frees it
    q.tx_descs[0].simulate_completion();
    assert_eq!(q.reclaim_completed(), 1);
    // the fifth post now lands in slot 0
    q.post(buf(0x5000), true).unwrap();
    assert_eq!(q.tx_descs[0].addr, 0x5000);
    assert_eq!(q.tx_cur, 1);
    assert_eq!(q.tx_in_flight, 4);
}

#[test]
fn reclaim_frees_exactly_the_completed_prefix() {
    let mut q = queue_of(4);
    q.post(buf(0x1000), true).unwrap();
    q.post(buf(0x2000), true).unwrap();
    q.post(buf(0x3000), true).unwrap();
    // slots 0 and 2 complete, slot 1 still in flight
    q.tx_descs[0].simulate_completion();
    q.tx_descs[2].simulate_completion();
    // the scan stops at slot 1: slot 2, though complete, is not freed yet
    assert_eq!(q.reclaim_completed(), 1);
    assert_eq!(q.tx_clean, 1);
    assert_eq!(q.tx_in_flight, 2);
    // once slot 1 completes, both remaining slots are freed
    q.tx_descs[1].simulate_completion();
    assert_eq!(q.reclaim_completed(), 2);
    assert_eq!(q.tx_clean, 3);
    assert_eq!(q.tx_in_flight, 0);
}

#[test]
fn reclaim_never_frees_a_slot_twice_without_a_post() {
    let mut q = queue_of(4);
    q.post(buf(0x1000), true).unwrap();
    q.post(buf(0x2000), true).unwrap();
    q.tx_descs[0].simulate_completion();
    q.tx_descs[1].simulate_completion();
    assert_eq!(q.reclaim_completed(), 2);
    // the completion bits are still set, but the window has moved past them
    assert_eq!(q.reclaim_completed(), 0);
    assert_eq!(q.tx_clean, 2);
}

#[test]
fn reclaim_on_an_idle_queue_frees_nothing() {
    let mut q = queue_of(4);
    assert_eq!(q.reclaim_completed(), 0);
    assert_eq!(q.tx_clean, 0);
    assert_eq!(q.tx_in_flight, 0);
}

#[test]
fn single_slot_ring_wraps_on_every_post() {
    let mut q = queue_of(1);
    q.post(buf(0x1000), true).unwrap();
    assert_eq!(q.tx_cur, 0);
    assert_eq!(q.post(buf(0x2000), true).unwrap_err(), QueueError::RingFull);
    q.tx_descs[0].simulate_completion();
    assert_eq!(q.reclaim_completed(), 1);
    q.post(buf(0x2000), true).unwrap();
    assert_eq!(q.tx_descs[0].addr, 0x2000);
}
