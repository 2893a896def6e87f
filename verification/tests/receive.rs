use nic_queues::buffers::{QueueError, ReceiveBuffer};
use nic_queues::descriptor::SimRxDescriptor;
use nic_queues::rx_queue::RxQueue;

fn buf(paddr: u64) -> ReceiveBuffer {
    ReceiveBuffer { paddr, length: 2048 }
}

fn queue_of(len: usize) -> RxQueue<SimRxDescriptor> {
    let descs = vec![SimRxDescriptor::empty(); len];
    let bufs: Vec<ReceiveBuffer> = (0..len).map(|i| buf(0x1000 + 0x1000 * i as u64)).collect();
    RxQueue::new(0, descs, bufs, 0).unwrap()
}

#[test]
fn rx_construction_rejects_empty_ring() {
    let r = RxQueue::<SimRxDescriptor>::new(0, Vec::new(), Vec::new(), 0);
    assert_eq!(r.unwrap_err(), QueueError::MappingFailure);
}

#[test]
fn construction_rejects_buffer_count_mismatch() {
    let descs = vec![SimRxDescriptor::empty(); 4];
    let bufs = vec![buf(0x1000); 3];
    let r = RxQueue::new(0, descs, bufs, 0);
    assert_eq!(r.unwrap_err(), QueueError::MappingFailure);
}

#[test]
fn construction_binds_one_buffer_per_slot() {
    let q = queue_of(4);
    assert_eq!(q.rx_cur, 0);
    assert_eq!(q.rx_descs.len(), 4);
    assert_eq!(q.rx_bufs_in_use.len(), 4);
    for i in 0..4 {
        assert_eq!(q.rx_descs[i].addr, q.rx_bufs_in_use[i].paddr);
        assert_eq!(q.rx_descs[i].cap, q.rx_bufs_in_use[i].length);
        assert!(!q.rx_descs[i].complete);
    }
}

#[test]
fn buffer_array_tracks_ring_length_for_all_sizes() {
    for len in [1usize, 2, 3, 8, 32] {
        let mut q = queue_of(len);
        let mut spares: Vec<ReceiveBuffer> = (0..len).map(|i| buf(0xa0000 + i as u64)).collect();
        assert_eq!(q.rx_bufs_in_use.len(), q.rx_descs.len());
        q.rx_descs[0].simulate_completion(64, true);
        q.drain_ready_descriptors(&mut spares).unwrap();
        assert_eq!(q.rx_bufs_in_use.len(), q.rx_descs.len());
        q.pop_frame();
        assert_eq!(q.rx_bufs_in_use.len(), q.rx_descs.len());
    }
}

#[test]
fn drain_without_completions_services_nothing() {
    let mut q = queue_of(4);
    let mut spares = vec![buf(0xa0000)];
    assert_eq!(q.drain_ready_descriptors(&mut spares).unwrap(), 0);
    assert_eq!(q.rx_cur, 0);
    assert_eq!(spares.len(), 1);
    assert!(q.pop_frame().is_none());
}

#[test]
fn single_buffer_frame_is_reassembled_and_slot_rebound() {
    let mut q = queue_of(4);
    let mut spares = vec![buf(0xa0000)];
    q.rx_descs[0].simulate_completion(1500, true);
    assert_eq!(q.drain_ready_descriptors(&mut spares).unwrap(), 1);
    assert_eq!(q.rx_cur, 1);
    // the drained slot was rebound to the spare before the cursor moved on
    assert_eq!(q.rx_bufs_in_use[0].paddr, 0xa0000);
    assert_eq!(q.rx_descs[0].addr, 0xa0000);
    assert!(!q.rx_descs[0].complete);
    assert!(spares.is_empty());
    let frame = q.pop_frame().unwrap();
    assert_eq!(frame.segment_count(), 1);
    assert_eq!(frame.0[0].paddr, 0x1000);
    // the segment's length is the byte count the device wrote, not the capacity
    assert_eq!(frame.0[0].length, 1500);
    assert!(q.pop_frame().is_none());
}

#[test]
fn two_buffer_frame_keeps_arrival_order() {
    let mut q = queue_of(4);
    let mut spares = vec![buf(0xa1000), buf(0xa0000)];
    q.rx_descs[0].simulate_completion(2048, false);
    q.rx_descs[1].simulate_completion(700, true);
    assert_eq!(q.drain_ready_descriptors(&mut spares).unwrap(), 2);
    let frame = q.pop_frame().unwrap();
    assert_eq!(frame.segment_count(), 2);
    assert_eq!(frame.0[0].paddr, 0x1000);
    assert_eq!(frame.0[0].length, 2048);
    assert_eq!(frame.0[1].paddr, 0x2000);
    assert_eq!(frame.0[1].length, 700);
    assert!(q.pop_frame().is_none());
}

#[test]
fn partial_frame_waits_for_its_end_across_drains() {
    let mut q = queue_of(4);
    let mut spares = vec![buf(0xa1000), buf(0xa0000)];
    q.rx_descs[0].simulate_completion(2048, false);
    assert_eq!(q.drain_ready_descriptors(&mut spares).unwrap(), 1);
    // first segment gathered, but the frame is not finished yet
    assert!(q.pop_frame().is_none());
    q.rx_descs[1].simulate_completion(100, true);
    assert_eq!(q.drain_ready_descriptors(&mut spares).unwrap(), 1);
    let frame = q.pop_frame().unwrap();
    assert_eq!(frame.segment_count(), 2);
    assert_eq!(frame.0[0].paddr, 0x1000);
    assert_eq!(frame.0[1].paddr, 0x2000);
}

#[test]
fn drain_stalls_without_a_spare_and_resumes() {
    let mut q = queue_of(4);
    let mut no_spares: Vec<ReceiveBuffer> = Vec::new();
    q.rx_descs[0].simulate_completion(64, true);
    let r = q.drain_ready_descriptors(&mut no_spares);
    assert_eq!(r.unwrap_err(), QueueError::AllocationFailure);
    // the cursor never moved past the slot lacking a fresh buffer
    assert_eq!(q.rx_cur, 0);
    assert_eq!(q.rx_bufs_in_use[0].paddr, 0x1000);
    assert!(q.pop_frame().is_none());
    // with a spare supplied, the same slot drains
    let mut spares = vec![buf(0xa0000)];
    assert_eq!(q.drain_ready_descriptors(&mut spares).unwrap(), 1);
    assert_eq!(q.rx_cur, 1);
    assert_eq!(q.pop_frame().unwrap().0[0].paddr, 0x1000);
}

#[test]
fn spares_run_out_mid_drain() {
    let mut q = queue_of(4);
    let mut spares = vec![buf(0xa0000)];
    q.rx_descs[0].simulate_completion(64, true);
    q.rx_descs[1].simulate_completion(64, true);
    let r = q.drain_ready_descriptors(&mut spares);
    // the first frame was gathered, then the drain stalled on slot 1
    assert_eq!(r.unwrap_err(), QueueError::AllocationFailure);
    assert_eq!(q.rx_cur, 1);
    assert_eq!(q.pop_frame().unwrap().0[0].paddr, 0x1000);
    assert!(q.pop_frame().is_none());
}

#[test]
fn frames_pop_in_completion_order() {
    let mut q = queue_of(4);
    let mut spares: Vec<ReceiveBuffer> = (0..8).map(|i| buf(0xa0000 + 0x1000 * i as u64)).collect();
    // interleave a single-buffer frame, a two-buffer frame, then another single
    q.rx_descs[0].simulate_completion(64, true);
    q.rx_descs[1].simulate_completion(2048, false);
    q.rx_descs[2].simulate_completion(300, true);
    q.rx_descs[3].simulate_completion(128, true);
    assert_eq!(q.drain_ready_descriptors(&mut spares).unwrap(), 4);
    let f1 = q.pop_frame().unwrap();
    let f2 = q.pop_frame().unwrap();
    let f3 = q.pop_frame().unwrap();
    assert!(q.pop_frame().is_none());
    assert_eq!(f1.segment_count(), 1);
    assert_eq!(f1.0[0].paddr, 0x1000);
    assert_eq!(f2.segment_count(), 2);
    assert_eq!(f2.0[0].paddr, 0x2000);
    assert_eq!(f2.0[1].paddr, 0x3000);
    assert_eq!(f3.segment_count(), 1);
    assert_eq!(f3.0[0].paddr, 0x4000);
}

#[test]
fn four_frames_of_one_one_two_one_buffers_in_order() {
    // ring length 4; completions requiring 1, 1, 2 and 1 buffers, signalled
    // immediately and drained as they land
    let mut q = queue_of(4);
    let mut spares: Vec<ReceiveBuffer> = (0..8).map(|i| buf(0xa0000 + 0x1000 * i as u64)).collect();

    q.rx_descs[0].simulate_completion(64, true);
    assert_eq!(q.drain_ready_descriptors(&mut spares).unwrap(), 1);
    q.rx_descs[1].simulate_completion(64, true);
    assert_eq!(q.drain_ready_descriptors(&mut spares).unwrap(), 1);
    q.rx_descs[2].simulate_completion(2048, false);
    q.rx_descs[3].simulate_completion(500, true);
    assert_eq!(q.drain_ready_descriptors(&mut spares).unwrap(), 2);
    // the ring has wrapped: the fourth frame lands in slot 0 again
    q.rx_descs[0].simulate_completion(90, true);
    assert_eq!(q.drain_ready_descriptors(&mut spares).unwrap(), 1);
    assert_eq!(q.rx_cur, 1);

    let counts: Vec<usize> = (0..4).map(|_| q.pop_frame().unwrap().segment_count()).collect();
    assert_eq!(counts, vec![1, 1, 2, 1]);
    assert!(q.pop_frame().is_none());
}

#[test]
fn full_ring_of_completions_drains_in_one_pass() {
    let mut q = queue_of(3);
    let mut spares: Vec<ReceiveBuffer> = (0..3).map(|i| buf(0xa0000 + i as u64)).collect();
    q.rx_descs[0].simulate_completion(10, true);
    q.rx_descs[1].simulate_completion(20, true);
    q.rx_descs[2].simulate_completion(30, true);
    assert_eq!(q.drain_ready_descriptors(&mut spares).unwrap(), 3);
    assert_eq!(q.rx_cur, 0);
    assert_eq!(q.pop_frame().unwrap().0[0].paddr, 0x1000);
    assert_eq!(q.pop_frame().unwrap().0[0].paddr, 0x2000);
    assert_eq!(q.pop_frame().unwrap().0[0].paddr, 0x3000);
    assert!(q.pop_frame().is_none());
}
