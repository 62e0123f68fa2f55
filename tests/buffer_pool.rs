use uring_rings::error::RingError;
use uring_rings::pool::{BufferPool, SlotState};

#[test]
fn new_pool_is_all_free_and_hands_out_highest_id_first() {
    let mut pool = BufferPool::new(8);
    assert_eq!(pool.capacity(), 8);
    assert_eq!(pool.free_count(), 8);
    assert!(pool.all_free());
    assert_eq!(pool.acquire_free(), Some(7));
    assert_eq!(pool.acquire_free(), Some(6));
    assert_eq!(pool.state(7), SlotState::Donated);
    assert_eq!(pool.free_count(), 6);
}

#[test]
fn empty_pool_offers_nothing() {
    let mut pool = BufferPool::new(1);
    assert_eq!(pool.acquire_free(), Some(0));
    assert_eq!(pool.acquire_free(), None);
    let mut none = BufferPool::new(0);
    assert_eq!(none.acquire_free(), None);
}

#[test]
fn slot_round_trip_returns_to_free() {
    let mut pool = BufferPool::new(4);
    let id = pool.acquire_free().unwrap();
    assert_eq!(pool.mark_completed(id, 16), Ok(()));
    assert_eq!(pool.state(id), SlotState::Completed { len: 16 });
    assert_eq!(pool.release(id), Ok(16));
    assert_eq!(pool.state(id), SlotState::Free);
    assert_eq!(pool.free_count(), 4);
    assert!(pool.all_free());
    // Released once only.
    assert_eq!(pool.release(id), Err(RingError::ProtocolViolation));
}

#[test]
fn out_of_order_transitions_are_violations() {
    let mut pool = BufferPool::new(2);
    assert_eq!(pool.mark_completed(0, 1), Err(RingError::ProtocolViolation));
    assert_eq!(pool.release(0), Err(RingError::ProtocolViolation));
    assert_eq!(pool.recycle(0), Err(RingError::ProtocolViolation));
    assert_eq!(pool.mark_donated(5), Err(RingError::ProtocolViolation));
    assert_eq!(pool.mark_donated(0), Ok(()));
    assert_eq!(pool.mark_donated(0), Err(RingError::ProtocolViolation));
    assert_eq!(pool.release(0), Err(RingError::ProtocolViolation));
    assert_eq!(pool.free_count(), 1);
    assert_eq!(pool.acquire_free(), Some(1));
    assert!(pool.none_donated() == false);
}

#[test]
fn failed_operation_recycles_its_buffer() {
    let mut pool = BufferPool::new(3);
    let id = pool.acquire_free().unwrap();
    assert_eq!(pool.recycle(id), Ok(()));
    assert_eq!(pool.state(id), SlotState::Free);
    assert!(pool.all_free());
    assert!(pool.none_donated());
}
