use uring_rings::zcrx::{io_uring_zcrx_cqe, io_uring_zcrx_rqe, RefillQueueInner};

fn rqe(off: u64, len: u32) -> io_uring_zcrx_rqe {
    io_uring_zcrx_rqe { off, len, __pad: 0 }
}

#[test]
fn capacity_must_be_power_of_two() {
    assert!(RefillQueueInner::new(0, 0).is_none());
    assert!(RefillQueueInner::new(3, 0).is_none());
    assert!(RefillQueueInner::new(12, 0).is_none());
    assert!(RefillQueueInner::new(1, 0).is_some());
    assert!(RefillQueueInner::new(4, 0).is_some());
}

#[test]
fn fresh_queue_is_empty() {
    let q = RefillQueueInner::new(8, 0).unwrap().borrow();
    assert_eq!(q.capacity(), 8);
    assert_eq!(q.len(), 0);
    assert!(q.is_empty());
    assert!(!q.is_full());
}

#[test]
fn push_on_full_ring_fails_and_writes_nothing() {
    let mut q = RefillQueueInner::new(4, 0).unwrap().borrow();
    for i in 0..4u64 {
        assert!(q.push(&rqe(i * 4096, 100)).is_ok());
    }
    assert!(q.is_full());
    assert!(q.push(&rqe(99, 1)).is_err());
    assert_eq!(q.len(), 4);
    let mut inner = q.release();
    for i in 0..4u64 {
        assert_eq!(inner.pop(), Some(rqe(i * 4096, 100)));
    }
    assert_eq!(inner.pop(), None);
}

#[test]
fn push_multiple_over_capacity_changes_nothing() {
    let mut q = RefillQueueInner::new(4, 0).unwrap().borrow();
    let entries: Vec<io_uring_zcrx_rqe> = (0..5u64).map(|i| rqe(i, 1)).collect();
    assert!(q.push_multiple(&entries).is_err());
    assert_eq!(q.len(), 0);
    assert!(q.is_empty());
}

#[test]
fn push_multiple_that_fits_appends_all_in_order() {
    let mut q = RefillQueueInner::new(4, 0).unwrap().borrow();
    assert!(q.push(&rqe(7, 7)).is_ok());
    let entries = vec![rqe(1, 1), rqe(2, 2), rqe(3, 3)];
    assert!(q.push_multiple(&entries).is_ok());
    assert!(q.is_full());
    assert!(q.push_multiple(&[rqe(4, 4)]).is_err());
    assert!(q.push_multiple(&[]).is_ok());
    let mut inner = q.release();
    assert_eq!(inner.pop(), Some(rqe(7, 7)));
    assert_eq!(inner.pop(), Some(rqe(1, 1)));
    assert_eq!(inner.pop(), Some(rqe(2, 2)));
    assert_eq!(inner.pop(), Some(rqe(3, 3)));
    assert_eq!(inner.pop(), None);
}

#[test]
fn executor_sees_only_published_entries() {
    let mut q = RefillQueueInner::new(4, 0).unwrap().borrow();
    assert!(q.push(&rqe(1, 1)).is_ok());
    assert_eq!(q.consume(), None);
    q.sync();
    assert_eq!(q.consume(), Some(rqe(1, 1)));
    assert_eq!(q.consume(), None);
}

#[test]
fn capacity_frees_only_after_sync_observes_consumption() {
    let mut q = RefillQueueInner::new(2, 0).unwrap().borrow();
    assert!(q.push(&rqe(1, 1)).is_ok());
    assert!(q.push(&rqe(2, 2)).is_ok());
    q.sync();
    assert_eq!(q.consume(), Some(rqe(1, 1)));
    // The handle still counts from its last observation of the executor.
    assert_eq!(q.len(), 2);
    assert!(q.push(&rqe(3, 3)).is_err());
    q.sync();
    assert_eq!(q.len(), 1);
    assert!(q.push(&rqe(3, 3)).is_ok());
    assert!(q.is_full());
}

#[test]
fn cursors_wrap_at_u32_max() {
    let start = u32::MAX - 1;
    let mut q = RefillQueueInner::new(4, start).unwrap().borrow();
    for round in 0..5u64 {
        assert!(q.push(&rqe(round, 1)).is_ok());
        assert!(q.push(&rqe(round + 100, 2)).is_ok());
        assert_eq!(q.len(), 2);
        assert!(q.len() <= q.capacity());
        q.sync();
        assert_eq!(q.consume(), Some(rqe(round, 1)));
        assert_eq!(q.consume(), Some(rqe(round + 100, 2)));
        q.sync();
        assert_eq!(q.len(), 0);
    }
    let inner = q.release();
    assert_eq!(inner.capacity(), 4);
}

#[test]
fn release_publishes_the_tail() {
    let mut q = RefillQueueInner::new(8, 10).unwrap().borrow();
    assert!(q.push(&rqe(5, 5)).is_ok());
    let mut inner = q.release();
    assert_eq!(inner.tail(), 11);
    assert_eq!(inner.head(), 10);
    assert_eq!(inner.pop(), Some(rqe(5, 5)));
    assert_eq!(inner.head(), 11);
    let q = inner.borrow();
    assert_eq!(q.len(), 0);
}

#[test]
fn zero_copy_offset_decodes_area_and_offset() {
    let cqe = io_uring_zcrx_cqe { off: (3u64 << 48) | 4096, __pad: 0 };
    assert_eq!(cqe.area_id(), 3);
    assert_eq!(cqe.area_offset(), 4096);
    let plain = io_uring_zcrx_cqe { off: 200, __pad: 0 };
    assert_eq!(plain.area_id(), 0);
    assert_eq!(plain.area_offset(), 200);
}

#[test]
fn push_writes_only_the_tail_slot() {
    let mut q = RefillQueueInner::new(32, 0).unwrap().borrow();
    assert!(q.push(&rqe(4096, 200)).is_ok());
    assert_eq!(q.len(), 1);
    let inner = q.release();
    assert_eq!(inner.tail(), 1);
    assert_eq!(inner.slot(0), rqe(4096, 200));
    for c in 1..32u32 {
        assert_eq!(inner.slot(c), rqe(0, 0));
    }
}

#[test]
fn push_multiple_writes_successive_slots_across_the_wrap() {
    let mut q = RefillQueueInner::new(4, 2).unwrap().borrow();
    assert!(q.push_multiple(&[rqe(1, 1), rqe(2, 2), rqe(3, 3)]).is_ok());
    let inner = q.release();
    assert_eq!(inner.tail(), 5);
    assert_eq!(inner.slot(2), rqe(1, 1));
    assert_eq!(inner.slot(3), rqe(2, 2));
    assert_eq!(inner.slot(4), rqe(3, 3));
    assert_eq!(inner.slot(1), rqe(0, 0));
}
