use aurora::align::block_align;

#[test]
fn block_align_rounds_up_to_multiples() {
    assert_eq!(block_align(0, 4), 0);
    assert_eq!(block_align(1, 4), 4);
    assert_eq!(block_align(4, 4), 4);
    assert_eq!(block_align(5, 4), 8);
    assert_eq!(block_align(88200, 2), 88200);
    assert_eq!(block_align(88201, 2), 88202);
    assert_eq!(block_align(1, 1), 1);
    assert_eq!(block_align(7, 3), 9);
}
