use multidown::buffer::WriteBuffer;

#[test]
fn full_blocks_are_handed_out_in_order() {
    let mut b = WriteBuffer::new(4);
    let blocks = b.write(&[1, 2, 3]);
    assert!(blocks.is_empty());
    assert_eq!(b.get_buffer_usage(), (3, 4));
    let blocks = b.write(&[4, 5, 6, 7, 8, 9, 10]);
    assert_eq!(blocks, vec![vec![1, 2, 3, 4], vec![5, 6, 7, 8]]);
    assert_eq!(b.get_total_written(), 8);
    assert_eq!(b.get_flush_count(), 2);
    assert_eq!(b.available_space(), 2);
    assert!(!b.is_empty());
    assert!(!b.is_full());
    assert_eq!(b.flush(), vec![9, 10]);
    assert_eq!(b.get_total_written(), 10);
    assert_eq!(b.get_flush_count(), 3);
    assert!(b.is_empty());
    assert!(b.flush().is_empty());
    assert_eq!(b.get_flush_count(), 3);
}

#[test]
fn exact_fill_flushes_immediately() {
    let mut b = WriteBuffer::new(3);
    assert_eq!(b.write(&[7, 7, 7]), vec![vec![7, 7, 7]]);
    assert!(b.is_empty());
    assert_eq!(b.get_total_written(), 3);
}
