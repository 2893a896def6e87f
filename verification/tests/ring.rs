use nic_queues::ring::next_index;

#[test]
fn advance_wraps_from_last_slot_to_zero() {
    assert_eq!(next_index(3, 4), 0);
    assert_eq!(next_index(0, 1), 0);
    assert_eq!(next_index(65534, 65535), 0);
}

#[test]
fn advance_moves_one_slot_forward() {
    assert_eq!(next_index(0, 4), 1);
    assert_eq!(next_index(1, 4), 2);
    assert_eq!(next_index(2, 4), 3);
}
