use thaunos::ring::{RingBuffer, BUF_SIZE, MAX_QUEUED};

#[test]
fn new_ring_is_empty() {
    let mut ring = RingBuffer::new();
    assert!(ring.is_empty());
    assert!(!ring.is_full());
    assert_eq!(ring.len(), 0);
    assert_eq!(ring.pop(), None);
}

#[test]
fn bytes_come_out_in_the_order_they_went_in() {
    let mut ring = RingBuffer::new();
    for b in [3u8, 1, 4, 1, 5, 9, 2, 6] {
        assert!(ring.push(b));
    }
    assert_eq!(ring.len(), 8);
    for b in [3u8, 1, 4, 1, 5, 9, 2, 6] {
        assert_eq!(ring.pop(), Some(b));
    }
    assert_eq!(ring.pop(), None);
}

#[test]
fn fifo_holds_up_to_the_capacity() {
    assert_eq!(BUF_SIZE, 256);
    assert_eq!(MAX_QUEUED, 255);
    let mut ring = RingBuffer::new();
    for i in 0..MAX_QUEUED {
        assert!(ring.push((i % 251) as u8));
    }
    assert!(ring.is_full());
    assert_eq!(ring.len(), MAX_QUEUED);
    for i in 0..MAX_QUEUED {
        assert_eq!(ring.pop(), Some((i % 251) as u8));
    }
    assert!(ring.is_empty());
}

#[test]
fn a_full_ring_drops_the_newest_byte() {
    let mut ring = RingBuffer::new();
    for i in 0..MAX_QUEUED {
        assert!(ring.push(i as u8));
    }
    assert!(!ring.push(0xEE));
    assert!(!ring.push(0xEF));
    assert_eq!(ring.len(), MAX_QUEUED);
    for i in 0..MAX_QUEUED {
        assert_eq!(ring.pop(), Some(i as u8));
    }
    assert_eq!(ring.pop(), None);
}

#[test]
fn the_indices_wrap_around() {
    let mut ring = RingBuffer::new();
    for round in 0..5u32 {
        for i in 0..200u32 {
            assert!(ring.push((round * 7 + i) as u8));
        }
        for i in 0..200u32 {
            assert_eq!(ring.pop(), Some((round * 7 + i) as u8));
        }
        assert!(ring.is_empty());
    }
}

#[test]
fn push_and_pop_take_turns() {
    let mut ring = RingBuffer::new();
    assert!(ring.push(1));
    assert!(ring.push(2));
    assert_eq!(ring.pop(), Some(1));
    assert!(ring.push(3));
    assert_eq!(ring.pop(), Some(2));
    assert_eq!(ring.pop(), Some(3));
    assert_eq!(ring.pop(), None);
    assert_eq!(ring.len(), 0);
}

#[test]
fn get_looks_at_a_queued_byte_without_taking_it() {
    let mut ring = RingBuffer::new();
    for round in 0..3 {
        for i in 0..100u8 {
            assert!(ring.push(i + round));
        }
        assert_eq!(ring.get(0), round);
        assert_eq!(ring.get(99), 99 + round);
        assert_eq!(ring.len(), 100);
        for i in 0..100u8 {
            assert_eq!(ring.get(0), i + round);
            assert_eq!(ring.pop(), Some(i + round));
        }
    }
}

#[test]
fn a_new_ring_has_both_indices_at_the_first_slot_and_every_slot_zero() {
    let ring = RingBuffer::new();
    assert_eq!(ring.write_idx(), 0);
    assert_eq!(ring.read_idx(), 0);
    assert_eq!(ring.buffer(), &[0u8; 256]);
}

#[test]
fn push_fills_the_slot_at_the_write_index_and_moves_only_that_index() {
    let mut buf = [0xAAu8; 256];
    buf[254] = 1;
    let mut ring = RingBuffer::from_parts(buf, 255, 254).expect("indices inside the array");
    assert_eq!(ring.len(), 1);
    assert!(ring.push(0x42));
    let mut expected = buf;
    expected[255] = 0x42;
    assert_eq!(ring.buffer(), &expected);
    assert_eq!(ring.write_idx(), 0);
    assert_eq!(ring.read_idx(), 254);
    assert!(ring.push(0x43));
    expected[0] = 0x43;
    assert_eq!(ring.buffer(), &expected);
    assert_eq!((ring.write_idx(), ring.read_idx()), (1, 254));
}

#[test]
fn pop_moves_only_the_read_index() {
    let mut buf = [0u8; 256];
    buf[255] = 9;
    buf[0] = 8;
    let mut ring = RingBuffer::from_parts(buf, 1, 255).expect("indices inside the array");
    assert_eq!(ring.pop(), Some(9));
    assert_eq!((ring.write_idx(), ring.read_idx()), (1, 0));
    assert_eq!(ring.buffer(), &buf);
    assert_eq!(ring.pop(), Some(8));
    assert_eq!((ring.write_idx(), ring.read_idx()), (1, 1));
    assert_eq!(ring.pop(), None);
    assert_eq!((ring.write_idx(), ring.read_idx()), (1, 1));
    assert_eq!(ring.buffer(), &buf);
}

#[test]
fn a_full_ring_keeps_every_slot_and_both_indices() {
    let mut buf = [0u8; 256];
    for (i, slot) in buf.iter_mut().enumerate() {
        *slot = i as u8;
    }
    let mut ring = RingBuffer::from_parts(buf, 99, 100).expect("indices inside the array");
    assert!(ring.is_full());
    assert_eq!(ring.len(), MAX_QUEUED);
    assert!(!ring.push(0xEE));
    assert_eq!(ring.buffer(), &buf);
    assert_eq!((ring.write_idx(), ring.read_idx()), (99, 100));
    assert_eq!(ring.pop(), Some(100));
    assert_eq!(ring.get(0), 101);
}

#[test]
fn from_parts_wants_both_indices_inside_the_array() {
    assert!(RingBuffer::from_parts([0; 256], 0, 0).is_some());
    assert!(RingBuffer::from_parts([0; 256], 255, 255).is_some());
    assert!(RingBuffer::from_parts([0; 256], 256, 0).is_none());
    assert!(RingBuffer::from_parts([0; 256], 0, 256).is_none());
    assert!(RingBuffer::from_parts([0; 256], usize::MAX, usize::MAX).is_none());
    let ring = RingBuffer::from_parts([7; 256], 3, 250).expect("indices inside the array");
    assert_eq!(ring.len(), 9);
    assert_eq!((ring.write_idx(), ring.read_idx()), (3, 250));
    assert_eq!(ring.buffer(), &[7u8; 256]);
}
