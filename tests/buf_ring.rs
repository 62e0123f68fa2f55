use uring_rings::buf_ring::{BufEntry, BufRing, BufRingMmap};
use uring_rings::error::RingError;

#[test]
fn mapping_needs_entries() {
    assert_eq!(BufRingMmap::new(0).err(), Some(RingError::InvalidConfiguration));
}

#[test]
fn mapping_reports_count_and_mask() {
    let m = BufRingMmap::new(8).unwrap();
    assert_eq!(m.entry_count(), 8);
    assert_eq!(m.mask(), 7);
    assert_eq!(m.size(), 8 * 16);
    assert!(m.mapping().len() >= 8 * 16);
}

#[test]
fn add_buffer_writes_at_tail_slot_and_wraps() {
    let m = BufRingMmap::new(8).unwrap();
    let mut ring = BufRing::register(3, m, u16::MAX - 1).unwrap();
    assert_eq!(ring.buffer_group(), 3);
    assert_eq!(ring.entry_count(), 8);
    ring.add_buffer(0x1000, 16, 0);
    ring.add_buffer(0x2000, 32, 1);
    ring.add_buffer(0x3000, 64, 2);
    assert_eq!(ring.tail(), 1);
    assert_eq!(ring.entry(6), BufEntry { addr: 0x1000, len: 16, bid: 0 });
    assert_eq!(ring.entry(7), BufEntry { addr: 0x2000, len: 32, bid: 1 });
    assert_eq!(ring.entry(0), BufEntry { addr: 0x3000, len: 64, bid: 2 });
    assert_eq!(ring.published(), u16::MAX - 1);
    ring.sync();
    assert_eq!(ring.published(), 1);
}
